use lsi_flash::cli::flash::{
    check_safety_guards, compute_backup_dir, mode_to_personality, progress, take_consent, would_do,
    AbortReason, FlashError, Orchestrator, Phase, StepDemand, StepInput,
};
use lsi_flash::cli::safety::{SafetyError, SystemState, TextSource, ToolOutcome};
use lsi_flash::cli::Mode;
use lsi_flash::mpi::messages::{
    ConfigReply, ConfigRequest, FwDownloadReply, FwDownloadRequest, FwUploadReply, FwUploadRequest,
    ImageType, IocFactsReply, IocInitReply, IocInitRequest, IocStatus, MpiError, ToolboxCleanFlags,
    ToolboxCleanRequest, ToolboxReply,
};
use lsi_flash::mpi::mock_ioc::MockIoc;
use lsi_flash::mpi::session::{IocBackend, Personality, PersonalityMatched, Session};

fn quiet_system() -> SystemState {
    SystemState {
        mounts: TextSource::Missing,
        pvs: ToolOutcome::Failed(SafetyError::Io("none".to_string())),
        mdstat: None,
        zpool: ToolOutcome::Failed(SafetyError::Io("none".to_string())),
    }
}

fn surroundings(devices: Vec<String>, system: SystemState) -> StepInput {
    StepInput::Surroundings {
        devices: Ok(devices),
        system,
        timestamp: "20260101-000000".to_string(),
    }
}

fn drive<B: IocBackend>(mut o: Orchestrator<B>, seen: &mut Vec<String>) -> Result<(), FlashError> {
    for _ in 0..20 {
        let input = match o.wants() {
            StepDemand::Nothing => StepInput::Nothing,
            StepDemand::Surroundings => surroundings(vec!["/dev/sdb".to_string()], quiet_system()),
            StepDemand::Backup => StepInput::BackedUp(Ok(())),
        };
        let before = o.current().clone();
        o.transition(input)?;
        if o.is_dry_run() {
            if let Some(t) = would_do(&before) {
                seen.push(t);
            }
        }
        if let Some(t) = progress(o.is_dry_run(), &before, o.current()) {
            seen.push(t);
        }
        if let Some(verdict) = o.verdict() {
            return verdict;
        }
    }
    panic!("flashing does not end");
}

fn init_request() -> IocInitRequest {
    IocInitRequest {
        who_init: 0x04,
        host_msix_vectors: 0,
        reply_descriptor_post_queue_depth: 16,
        system_request_frame_base_address: 0,
        reply_descriptor_post_queue_address: 0,
    }
}

#[test]
fn mode_to_personality_maps_hba_and_raid_correctly() {
    assert_eq!(mode_to_personality(Mode::HBA), Personality::It);
    assert_eq!(mode_to_personality(Mode::RAID), Personality::Ir);
}

#[test]
fn abort_reason_display_formats_safety_guard() {
    let reason = AbortReason::SafetyGuardTripped("mount point in use".to_string());
    let display = reason.text();
    assert!(display.contains("safety guard tripped"));
}

#[test]
fn abort_reason_display_formats_personality_mismatch() {
    let reason = AbortReason::PersonalityMismatch {
        running: Personality::It,
        target: Personality::Ir,
    };
    let display = reason.text();
    assert!(display.contains("personality mismatch"));
    assert!(display.contains("running=It"));
}

#[test]
fn abort_reason_display_formats_backup_failed() {
    let reason = AbortReason::BackupFailed("disk full".to_string());
    let display = reason.text();
    assert!(display.contains("backup failed"));
}

#[test]
fn abort_reason_display_formats_user_declined() {
    let reason = AbortReason::UserDeclined;
    let display = reason.text();
    assert!(display.contains("user declined"));
}

#[test]
fn phase_default_is_detect() {
    let default_phase: Phase = Default::default();
    assert!(matches!(default_phase, Phase::Detect));
}

#[test]
fn abort_reason_clone_works() {
    let reason1 = AbortReason::SafetyGuardTripped("test".to_string());
    let reason2 = reason1.clone();
    assert_eq!(reason1.text(), reason2.text());
}

#[test]
fn phase_clone_works() {
    let phase1 = Phase::Halt {
        current_personality: Personality::It,
    };
    let phase2 = phase1.clone();
    assert_eq!(phase1, phase2);
}

#[test]
fn orchestrator_dry_run_completes_successfully() {
    let mock_ioc = MockIoc::new(Personality::It);
    let session = Session::new(mock_ioc);

    let orchestrator = Orchestrator::new(session, Mode::HBA, None, true, true, false);

    let mut seen = Vec::new();
    let result = drive(orchestrator, &mut seen);

    assert!(
        result.is_ok(),
        "Dry-run orchestrator should complete successfully"
    );
    assert_eq!(
        seen,
        vec![
            "detected personality: It",
            "backup directory: /var/lib/lsi-flash/backups/unknown-wwn/20260101-000000",
            "[dry-run] would backup to /var/lib/lsi-flash/backups/unknown-wwn/20260101-000000",
            "backup complete",
            "[dry-run] would erase flash (TOOLBOX_CLEAN)",
            "erase complete",
            "[dry-run] would download 0 bytes of firmware (verify-after-write)",
            "firmware download complete",
            "[dry-run] would download 0 bytes of BIOS",
            "BIOS download complete",
            "[dry-run] would write SBR via I²C",
            "SBR write complete",
            "[dry-run] would reset adapter (IOC_INIT)",
            "adapter reset complete",
            "verify: personality It matches expected",
        ]
    );
}

#[test]
fn abort_reason_iocstatus_error_formats_correctly() {
    let reason = AbortReason::IocStatusError(IocStatus::InternalError);
    assert_eq!(reason.text(), "IOC status error: InternalError");

    let reason2 = AbortReason::IocStatusError(IocStatus::Busy);
    assert_eq!(reason2.text(), "IOC status error: Busy");
}

#[test]
fn flash_fw_download_verified_enforces_personality_match() {
    let mock = MockIoc::new(Personality::It);
    let mut session = Session::new(mock);

    let _ = session.raw_ioc_init(&init_request());

    let result = session.fw_download_verified(ImageType::Fw, Personality::Ir, &[0u8; 100]);

    assert!(matches!(result, Err(MpiError::PersonalityMismatch { .. })));

    if let Err(MpiError::PersonalityMismatch { running, target }) = result {
        assert_eq!(running, Personality::It);
        assert_eq!(target, Personality::Ir);
    }
}

#[test]
fn toolbox_clean_flags_combine_correctly() {
    let flags = ToolboxCleanFlags::fw_current() | ToolboxCleanFlags::flash();

    assert!(flags.contains(ToolboxCleanFlags::fw_current()));
    assert!(flags.contains(ToolboxCleanFlags::flash()));
    assert!(!flags.contains(ToolboxCleanFlags::nvram()));

    let all = ToolboxCleanFlags::all();
    assert!(all.contains(ToolboxCleanFlags::fw_current()));
    assert!(all.contains(ToolboxCleanFlags::flash()));
    assert!(all.contains(ToolboxCleanFlags::nvram()));
}

#[test]
fn session_raw_toolbox_clean_exists_and_calls_backend() {
    let mock = MockIoc::new(Personality::It);
    let mut session = Session::new(mock);

    let _ = session.raw_ioc_init(&init_request());

    let req = ToolboxCleanRequest {
        flags: ToolboxCleanFlags::fw_current() | ToolboxCleanFlags::flash(),
    };

    let reply = session.raw_toolbox_clean(&req).unwrap();
    assert_eq!(reply.ioc_status, IocStatus::Success);
}

#[test]
fn orchestrator_personality_mismatch_caught_via_verified_helper() {
    let result = PersonalityMatched::verify_match(Personality::It, Personality::Ir);

    assert!(result.is_err(), "Personality mismatch should be rejected");

    if let Err(MpiError::PersonalityMismatch { running, target }) = result {
        assert_eq!(running, Personality::It);
        assert_eq!(target, Personality::Ir);
    } else {
        panic!("Expected MpiError::PersonalityMismatch");
    }

    let result_ok = PersonalityMatched::verify_match(Personality::It, Personality::It);
    assert!(
        result_ok.is_ok(),
        "Matching personalities should be allowed"
    );
}

#[test]
fn flash_of_a_mock_goes_through_all_phases() {
    let mock = MockIoc::new(Personality::It);
    let o = Orchestrator::new(Session::new(mock), Mode::HBA, None, false, true, true);
    let mut seen = Vec::new();
    assert!(drive(o, &mut seen).is_ok());
    assert_eq!(seen.len(), 9);
    assert_eq!(seen[2], "backup complete");
    assert_eq!(seen[3], "erase complete");
}

#[test]
fn flash_of_other_firmware_hostboots_and_fails_its_verification() {
    let mock = MockIoc::new(Personality::It);
    let o = Orchestrator::new(Session::new(mock), Mode::RAID, None, true, false, true);
    assert!(!o.needs_confirmation());
    let mut seen = Vec::new();
    let e = drive(o, &mut seen).unwrap_err();
    assert_eq!(
        e.text(),
        "abort: personality mismatch: running=It target=Ir"
    );
    assert_eq!(
        seen[1],
        "personality mismatch: running=It target=Ir → transitioning to hostboot"
    );
    assert_eq!(seen[2], "[dry-run] would hostboot to Ir");
    assert_eq!(
        seen[seen.len() - 1],
        "verify FAILED: running=It expected=Ir"
    );
}

#[test]
fn flash_refuses_a_disk_in_use() {
    let mock = MockIoc::new(Personality::It);
    let mut o = Orchestrator::new(Session::new(mock), Mode::HBA, None, false, false, true);
    assert!(o.needs_confirmation());
    o.transition(StepInput::Nothing).unwrap();
    assert_eq!(o.wants(), StepDemand::Surroundings);
    let mut system = quiet_system();
    system.mounts = TextSource::Text("/dev/sdb1 /srv ext4 rw 0 0\n".to_string());
    let e = o
        .transition(surroundings(vec!["/dev/sdb".to_string()], system))
        .unwrap_err();
    assert!(matches!(&e, FlashError::SafetyGuard(m) if m.contains("umount /srv")));
    assert!(e
        .text()
        .starts_with("safety guard tripped: Block device /dev/sdb1 (ext4) is mounted at /srv."));
    assert_eq!(*o.current(), Phase::Detect);
}

#[test]
fn flash_stops_when_the_backup_fails() {
    let mock = MockIoc::new(Personality::It);
    let mut o = Orchestrator::new(Session::new(mock), Mode::HBA, None, false, true, true);
    o.transition(StepInput::Nothing).unwrap();
    o.transition(surroundings(Vec::new(), quiet_system())).unwrap();
    assert_eq!(o.wants(), StepDemand::Backup);
    let e = o
        .transition(StepInput::BackedUp(Err("disk full".to_string())))
        .unwrap_err();
    assert_eq!(
        e.text(),
        "backup module error: backup module error: disk full"
    );
}

#[test]
fn safety_of_a_dry_run_needs_only_the_list_of_disks() {
    let mut system = quiet_system();
    system.mounts = TextSource::Text("/dev/sdb1 /srv ext4 rw 0 0\n".to_string());
    let disks = Ok(vec!["/dev/sdb".to_string()]);
    assert!(check_safety_guards(true, &disks, &system).is_ok());
    assert!(check_safety_guards(false, &disks, &system).is_err());
    let unknown: Result<Vec<String>, SafetyError> = Err(SafetyError::Io("gone".to_string()));
    let e = check_safety_guards(true, &unknown, &system).unwrap_err();
    assert_eq!(e.text(), "safety guard tripped: io: gone");
    system.mounts = TextSource::Broken("bad line".to_string());
    let e = check_safety_guards(false, &disks, &system).unwrap_err();
    assert_eq!(e.text(), "safety guard tripped: io: bad line");
}

#[test]
fn consent_starts_with_a_y() {
    assert!(take_consent("y\n").is_ok());
    assert!(take_consent("  Yes please\n").is_ok());
    for no in ["", "\n", "n\n", "ok\n"] {
        let e = take_consent(no).unwrap_err();
        assert_eq!(e.text(), "abort: user declined confirmation");
    }
}

#[test]
fn flash_error_texts() {
    assert_eq!(
        FlashError::Mpi(MpiError::UnknownFunction(7)).text(),
        format!("MPI: {}", MpiError::UnknownFunction(7).text())
    );
    assert_eq!(FlashError::Declined.text(), "user declined confirmation");
    assert_eq!(FlashError::Io("x".to_string()).text(), "io: x");
    assert_eq!(
        FlashError::PersonalityMismatch {
            running: Personality::Imr,
            target: Personality::It
        }
        .text(),
        "personality mismatch: running=Imr target=It"
    );
    assert_eq!(
        FlashError::Abort {
            reason: AbortReason::VerifyMismatch { offset: 4097 }
        }
        .text(),
        "abort: verify mismatch at byte offset 4097"
    );
    assert_eq!(compute_backup_dir("T"), "/var/lib/lsi-flash/backups/unknown-wwn/T");
}

struct Recorder {
    mock: MockIoc,
    log: std::rc::Rc<std::cell::RefCell<Vec<&'static str>>>,
    starts: usize,
    refuse_start: usize,
}

impl IocBackend for Recorder {
    fn send_fw_download(&mut self, req: &FwDownloadRequest<'_>) -> Result<FwDownloadReply, MpiError> {
        self.log.borrow_mut().push("download");
        self.mock.send_fw_download(req)
    }

    fn send_fw_upload(&mut self, req: &mut FwUploadRequest) -> Result<FwUploadReply, MpiError> {
        self.log.borrow_mut().push(match req.image_type {
            ImageType::Fw => "read back fw",
            _ => "read back bios",
        });
        Ok(FwUploadReply {
            image_type: req.image_type.as_u8(),
            ioc_status: IocStatus::Success,
            actual_image_size: req.image_size,
        })
    }

    fn send_toolbox_clean(&mut self, req: &ToolboxCleanRequest) -> Result<ToolboxReply, MpiError> {
        self.log.borrow_mut().push("erase");
        self.mock.send_toolbox_clean(req)
    }

    fn send_config(&mut self, req: &ConfigRequest) -> Result<ConfigReply, MpiError> {
        self.mock.send_config(req)
    }

    fn send_ioc_init(&mut self, req: &IocInitRequest) -> Result<IocInitReply, MpiError> {
        self.starts += 1;
        self.log.borrow_mut().push("start");
        if self.starts == self.refuse_start {
            return Err(MpiError::Io("no answer".to_string()));
        }
        self.mock.send_ioc_init(req)
    }

    fn send_ioc_facts(&mut self) -> Result<IocFactsReply, MpiError> {
        self.mock.send_ioc_facts()
    }

    fn current_personality(&self) -> Result<Personality, MpiError> {
        self.mock.current_personality()
    }
}

#[test]
fn firmware_and_bios_go_in_separate_sessions() {
    let log = std::rc::Rc::new(std::cell::RefCell::new(Vec::new()));
    let recorder = Recorder {
        mock: MockIoc::new(Personality::It),
        log: log.clone(),
        starts: 0,
        refuse_start: 0,
    };
    let o = Orchestrator::new(Session::new(recorder), Mode::HBA, None, false, true, true);
    assert!(drive(o, &mut Vec::new()).is_ok());
    assert_eq!(
        *log.borrow(),
        ["start", "erase", "read back fw", "start", "read back bios", "start"]
    );
}

#[test]
fn bios_is_not_written_without_a_start() {
    let log = std::rc::Rc::new(std::cell::RefCell::new(Vec::new()));
    let recorder = Recorder {
        mock: MockIoc::new(Personality::It),
        log: log.clone(),
        starts: 0,
        refuse_start: 2,
    };
    let o = Orchestrator::new(Session::new(recorder), Mode::HBA, None, false, true, true);
    let e = drive(o, &mut Vec::new()).unwrap_err();
    assert!(matches!(e, FlashError::Mpi(MpiError::Io(t)) if t == "no answer"));
    assert_eq!(*log.borrow(), ["start", "erase", "read back fw", "start"]);
}
