use lsi_flash::cli::backup::{
    choose_way, describe_artifact, ensure_dir_empty, judge_partition, report, resolve_out_dir,
    run_backup_with_session, session_backup_begin, session_manifest, sha_short, BackupArtifact,
    BackupError, BackupManifest, BackupWay, FlashCapture, ManifestFault, SessionBackupAction,
    SessionBackupEvent, WayEvent,
};
use lsi_flash::digest::sha256_hex;
use lsi_flash::error::Error;
use lsi_flash::mpi::messages::{ImageType, IocInitRequest, IocStatus, MpiError};
use lsi_flash::mpi::mock_ioc::MockIoc;
use lsi_flash::mpi::session::{Personality, Session};

fn setup_mock_with_data() -> Session<MockIoc> {
    let mut mock = MockIoc::new(Personality::It);

    mock.preload_partition(ImageType::Fw, vec![0xAA; 1024]);
    mock.preload_partition(ImageType::Bios, vec![0xBB; 512]);
    mock.preload_partition(ImageType::NvData, vec![0xCC; 256]);

    let mut session = Session::new(mock);

    let init_req = IocInitRequest {
        who_init: 0x04,
        host_msix_vectors: 0,
        reply_descriptor_post_queue_depth: 16,
        system_request_frame_base_address: 0,
        reply_descriptor_post_queue_address: 0,
    };
    session.raw_ioc_init(&init_req).unwrap();

    session
}

fn drive(
    session: &mut Session<MockIoc>,
    with_flash: bool,
    files: &mut Vec<(String, Vec<u8>)>,
) -> (Result<Vec<BackupArtifact>, Error>, Option<BackupManifest>) {
    let mut manifest = None;
    let (mut state, mut action) = session_backup_begin();
    loop {
        let event = match action {
            SessionBackupAction::Finish(r) => return (r, manifest),
            SessionBackupAction::Upload(mut req) => {
                let reply = session.raw_fw_upload(&mut req);
                SessionBackupEvent::Uploaded {
                    reply,
                    buffer: req.payload_buffer,
                }
            }
            SessionBackupAction::Save { file, data } => {
                files.push((file.to_string(), data));
                SessionBackupEvent::Saved(Ok(()))
            }
            SessionBackupAction::ReadFlash { size, .. } => {
                SessionBackupEvent::Flash(FlashCapture::Read(vec![0xFF; size.min(16)]))
            }
            SessionBackupAction::SaveManifest { artifacts, .. } => {
                files.push(("manifest.toml".to_string(), Vec::new()));
                manifest = Some(session_manifest("t".to_string(), artifacts));
                SessionBackupEvent::ManifestSaved(Ok(()))
            }
        };
        let next = run_backup_with_session(state, event, with_flash);
        state = next.0;
        action = next.1;
    }
}

fn saved(files: &[(String, Vec<u8>)], name: &str) -> bool {
    files.iter().any(|f| f.0 == name)
}

#[test]
fn backup_with_mock_no_full_flash() {
    let mut session = setup_mock_with_data();

    let mut files = Vec::new();
    let (result, _) = drive(&mut session, false, &mut files);
    assert!(result.is_ok());

    assert!(saved(&files, "firmware.bin"));
    assert!(saved(&files, "bios.rom"));
    assert!(saved(&files, "nvdata.bin"));
    assert!(saved(&files, "manifest.toml"));
    assert!(
        !saved(&files, "flash-full.bin"),
        "Mock should not capture full flash"
    );
}

#[test]
fn backup_writes_all_three_partitions_plus_manifest() {
    let mut session = setup_mock_with_data();

    ensure_dir_empty("backup-test", None).unwrap();

    let mut files = Vec::new();
    let (result, manifest) = drive(&mut session, true, &mut files);
    let artifacts = result.unwrap();
    for a in &artifacts {
        let data = &files.iter().find(|f| f.0 == a.path).unwrap().1;
        assert_eq!(a.sha256, sha256_hex(data));
        assert_eq!(a.size, data.len() as u64);
    }
    assert_eq!(manifest.unwrap().artifacts.len(), artifacts.len());

    assert!(saved(&files, "firmware.bin"));
    assert!(saved(&files, "bios.rom"));
    assert!(saved(&files, "nvdata.bin"));
    assert!(saved(&files, "flash-full.bin"));
    assert!(saved(&files, "manifest.toml"));
}

#[test]
fn backup_refuses_non_empty_output_dir() {
    let result = ensure_dir_empty("/tmp/x", Some(Ok(1)));
    assert!(matches!(result, Err(BackupError::OutputDirNotEmpty(_))));
    assert!(ensure_dir_empty("/tmp/x", Some(Ok(0))).is_ok());
    assert!(matches!(
        ensure_dir_empty("/tmp/x", Some(Err("denied".to_string()))),
        Err(BackupError::Io(_))
    ));
}

#[test]
fn backup_handles_empty_partition_gracefully() {
    let mut session = Session::new(MockIoc::new(Personality::It));
    let init_req = IocInitRequest {
        who_init: 0x04,
        host_msix_vectors: 0,
        reply_descriptor_post_queue_depth: 16,
        system_request_frame_base_address: 0,
        reply_descriptor_post_queue_address: 0,
    };
    session.raw_ioc_init(&init_req).unwrap();
    let mut files = Vec::new();
    let (result, _) = drive(&mut session, false, &mut files);
    assert!(result.is_ok());
    assert!(saved(&files, "firmware.bin"));
}

#[test]
fn backup_sha256_hex_produces_64_char_hex_string() {
    let data = b"hello world";
    let hash = sha256_hex(data);

    assert_eq!(hash.len(), 64);
    assert!(hash.chars().all(|c| c.is_ascii_hexdigit()));
}

#[test]
fn backup_error_partial_upload_format() {
    let error = BackupError::PartialUpload {
        image_type: ImageType::Bios,
        ioc_status: IocStatus::InternalError,
    };

    let msg = error.text();
    assert!(msg.contains("Bios"));
    assert!(msg.contains("InternalError"));
}

#[test]
fn resolve_out_dir_user_specified() {
    let result = resolve_out_dir(&Some("/custom/path".to_string()), "t");
    assert_eq!(result, "/custom/path");
}

#[test]
fn resolve_out_dir_default_generates_path() {
    let result = resolve_out_dir(&None, "20260101-000000");
    assert!(result.starts_with("/var/lib/lsi-flash/backups/"));
    assert!(result.ends_with("20260101-000000"));
}

#[test]
fn a_refused_upload_ends_the_backup() {
    let mut mock = MockIoc::new(Personality::It);
    mock.inject_fw_upload_error(IocStatus::Busy);
    let mut session = Session::new(mock);
    let mut files = Vec::new();
    let (result, _) = drive(&mut session, false, &mut files);
    assert!(result.is_err());
    assert!(!saved(&files, "manifest.toml"));
    let e = judge_partition(ImageType::Fw, Err(MpiError::UnknownFunction(1)), &[]).unwrap_err();
    assert!(matches!(e, Error::MpiMessage(_)));
}

#[test]
fn a_manifest_that_cannot_be_written_is_an_error() {
    let (mut state, mut action) = session_backup_begin();
    let mut session = setup_mock_with_data();
    loop {
        let event = match action {
            SessionBackupAction::Finish(r) => {
                assert!(matches!(
                    r,
                    Err(Error::Backup(BackupError::TomlSer(_))) | Err(Error::TomlSer(_))
                ));
                break;
            }
            SessionBackupAction::Upload(mut req) => {
                let reply = session.raw_fw_upload(&mut req);
                SessionBackupEvent::Uploaded {
                    reply,
                    buffer: req.payload_buffer,
                }
            }
            SessionBackupAction::SaveManifest { .. } => {
                SessionBackupEvent::ManifestSaved(Err(ManifestFault::Toml("bad".to_string())))
            }
            _ => SessionBackupEvent::Saved(Ok(())),
        };
        let next = run_backup_with_session(state, event, false);
        state = next.0;
        action = next.1;
    }
}

#[test]
fn a_report_shortens_the_digests() {
    assert_eq!(sha_short("0123456789abcdef0123"), "0123456789abcdef");
    assert_eq!(sha_short("ab"), "ab");
    let a = BackupArtifact {
        path: "bios.rom".to_string(),
        image_type: "Bios".to_string(),
        sha256: "a".repeat(64),
        size: 512,
    };
    assert_eq!(
        describe_artifact(&a),
        "  bios.rom (512 bytes, sha256: aaaaaaaaaaaaaaaa)"
    );
    let lines = report("/d", &vec![a], true);
    assert_eq!(lines[0], "backup written to: /d");
    assert_eq!(lines[1], "artifacts (1) summary:");
}

#[test]
fn the_mock_is_only_for_its_own_address() {
    let (way, notice) = choose_way("-1:-1:-1:-1", &WayEvent::Address);
    assert_eq!(way, BackupWay::Mock);
    assert_eq!(
        notice.unwrap(),
        "backup: ⚠ MOCK backend (sentinel -1:-1:-1:-1) — artifacts are SYNTHETIC, NOT a real card."
    );
    let (way, notice) = choose_way("0000:03:00.0", &WayEvent::Address);
    assert_eq!(way, BackupWay::Discover);
    assert_eq!(notice, None);
}

#[test]
fn the_adapter_is_preferred_to_its_doorbell() {
    let bdf = "0000:03:00.0";
    let (way, notice) = choose_way(bdf, &WayEvent::Discovered(Ok(())));
    assert_eq!(way, BackupWay::Card);
    assert_eq!(
        notice.unwrap(),
        "backup: using MptCard via kernel-mediated transport (0000:03:00.0)"
    );
    let (way, notice) = choose_way(bdf, &WayEvent::Discovered(Err("x".to_string())));
    assert_eq!(way, BackupWay::Attach);
    assert_eq!(
        notice.unwrap(),
        "backup: card.discover_one(0000:03:00.0) failed: x — falling back to legacy doorbell path"
    );
    assert_eq!(choose_way(bdf, &WayEvent::Attached(Ok(()))).0, BackupWay::Backend);
    let (way, notice) = choose_way(bdf, &WayEvent::Attached(Err("y".to_string())));
    assert_eq!(way, BackupWay::Direct);
    assert!(notice.unwrap().starts_with("warning: HwBackend (VFIO) attach failed: y — "));
}
