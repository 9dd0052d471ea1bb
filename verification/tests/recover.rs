use lsi_flash::card::{BackupArtifact, BackupManifest, RestoreReport};
use lsi_flash::cli::recover::{
    admit_backup, check_artifact, confirmation_prompt, needs_confirmation, planned, recover_step,
    take_answer, verify_artifacts, ArtifactRead, ManifestRead, RecoverAction, RecoverError,
    RecoverEvent, RecoverState,
};
use lsi_flash::digest::sha256_hex;
use lsi_flash::error::Error;

fn artifact(path: &str, image_type: &str, data: &[u8]) -> BackupArtifact {
    BackupArtifact {
        path: path.to_string(),
        image_type: image_type.to_string(),
        sha256: sha256_hex(data),
        size: data.len() as u64,
    }
}

fn create_test_backup() -> (BackupManifest, Vec<Vec<u8>>) {
    let firmware_data = vec![0xAA; 1024];
    let bios_data = vec![0xBB; 512];
    let nvdata_data = vec![0xCC; 256];

    let manifest = BackupManifest {
        timestamp: "2026-01-01T00:00:00Z".to_string(),
        sas_wwn: None,
        artifacts: vec![
            artifact("firmware.bin", "Fw", &firmware_data),
            artifact("bios.rom", "Bios", &bios_data),
            artifact("nvdata.bin", "NvData", &nvdata_data),
        ],
        source_card: None,
    };
    (manifest, vec![firmware_data, bios_data, nvdata_data])
}

fn reads(files: &[Vec<u8>]) -> Vec<ArtifactRead> {
    files
        .iter()
        .map(|f| ArtifactRead::Read(f.clone()))
        .collect()
}

#[test]
fn recover_refuses_missing_backup_dir() {
    let result = admit_backup(
        "/nonexistent/path/foo",
        false,
        ManifestRead::Missing,
        &Vec::new(),
    );
    assert!(matches!(
        result,
        Err(Error::Recover(RecoverError::BackupDirNotFound(_)))
    ));
}

#[test]
fn recover_refuses_missing_manifest() {
    let result = admit_backup("/tmp/x", true, ManifestRead::Missing, &Vec::new());
    assert!(matches!(
        result,
        Err(Error::Recover(RecoverError::ManifestNotFound(_)))
    ));
}

#[test]
fn recover_refuses_sha256_mismatch() {
    let (manifest, mut files) = create_test_backup();

    files[0][0] ^= 0xFF;

    let result = admit_backup("/tmp/x", true, ManifestRead::Read(manifest), &reads(&files));
    assert!(matches!(
        result,
        Err(Error::Recover(RecoverError::Sha256Mismatch { .. }))
    ));
}

#[test]
fn recover_refuses_artifact_missing_from_manifest() {
    let (manifest, files) = create_test_backup();

    let mut found = reads(&files);
    found[0] = ArtifactRead::Missing;

    let result = admit_backup("/tmp/x", true, ManifestRead::Read(manifest), &found);
    assert!(matches!(
        result,
        Err(Error::Recover(RecoverError::ArtifactMissing(_)))
    ));
}

fn loaded(manifest: BackupManifest, files: &[Vec<u8>]) -> RecoverEvent {
    RecoverEvent::Loaded {
        dir_exists: true,
        manifest: ManifestRead::Read(manifest),
        reads: reads(files),
    }
}

#[test]
fn recover_with_yes_skips_confirmation() {
    let (manifest, files) = create_test_backup();
    let state = RecoverState::Loading { pci: None };
    let (state, action) = recover_step(state, "/tmp/x", true, false, loaded(manifest, &files));
    assert!(matches!(action, RecoverAction::List));
    assert!(matches!(state, RecoverState::Listing));

    assert!(!needs_confirmation(true, false));
    assert!(!needs_confirmation(false, true));
    assert!(needs_confirmation(false, false));
}

#[test]
fn recover_validates_all_artifacts_before_any_write() {
    for (yes, dry_run) in [(true, false), (false, false), (true, true), (false, true)] {
        let (manifest, mut files) = create_test_backup();

        files[1][0] ^= 0xFF;

        let state = RecoverState::Loading {
            pci: Some("0000:03:00.0".to_string()),
        };
        let (state, action) =
            recover_step(state, "/tmp/x", yes, dry_run, loaded(manifest, &files));
        assert!(matches!(
            action,
            RecoverAction::Finish(Err(Error::Recover(RecoverError::Sha256Mismatch { name, .. })))
                if name == "bios.rom"
        ));
        assert!(matches!(state, RecoverState::Ended));
    }
}

#[test]
fn recover_dry_run_touches_no_hardware() {
    for (pci, expected) in [
        (None, "0000:00:00.0"),
        (Some("0000:03:00.0".to_string()), "0000:03:00.0"),
    ] {
        let (manifest, files) = create_test_backup();
        let state = RecoverState::Loading { pci };
        let (state, action) = recover_step(state, "/tmp/x", true, true, loaded(manifest, &files));
        match action {
            RecoverAction::Plan { regions, bdf } => {
                assert_eq!(bdf, expected);
                assert_eq!(regions.len(), 2);
            }
            _ => panic!("expected a plan"),
        }
        assert!(matches!(state, RecoverState::Ended));
    }
}

#[test]
fn a_recovery_asks_finds_and_restores() {
    let (manifest, files) = create_test_backup();
    let state = RecoverState::Loading { pci: None };
    let (state, action) = recover_step(state, "/tmp/x", false, false, loaded(manifest, &files));
    assert!(matches!(
        action,
        RecoverAction::Ask(t) if t == "About to restore 3 artifacts from /tmp/x — proceed? [y/N]"
    ));
    let answer = RecoverEvent::Answered(Ok("y\n".to_string()));
    let (state, action) = recover_step(state, "/tmp/x", false, false, answer);
    assert!(matches!(action, RecoverAction::List));
    let listed = RecoverEvent::Listed(Ok(vec!["a".to_string(), "b".to_string()]));
    let (state, action) = recover_step(state, "/tmp/x", false, false, listed);
    assert!(matches!(action, RecoverAction::Discover(bdf) if bdf == "a"));
    let (state, action) = recover_step(state, "/tmp/x", false, false, RecoverEvent::Found(Ok(())));
    assert!(matches!(action, RecoverAction::Restore));
    let report = RestoreReport {
        timestamp: "t".to_string(),
        regions_written: 2,
        regions: Vec::new(),
    };
    let restored = RecoverEvent::Restored(Ok(report));
    let (state, action) = recover_step(state, "/tmp/x", false, false, restored);
    assert!(matches!(action, RecoverAction::Finish(Ok(r)) if r.regions_written == 2));
    assert!(matches!(state, RecoverState::Ended));
}

fn failure(state: RecoverState, event: RecoverEvent) -> String {
    match recover_step(state, "/tmp/x", false, false, event) {
        (RecoverState::Ended, RecoverAction::Finish(Err(e))) => e.text(),
        _ => panic!("expected a failure"),
    }
}

#[test]
fn a_recovery_stops_at_any_failure() {
    let asking = || RecoverState::Asking { pci: None };
    assert_eq!(
        failure(asking(), RecoverEvent::Answered(Ok("no".to_string()))),
        "recover error: user declined confirmation"
    );
    assert_eq!(
        failure(asking(), RecoverEvent::Answered(Err("closed".to_string()))),
        "IO error: closed"
    );
    let finding = RecoverState::Finding {
        bdf: "b".to_string(),
    };
    assert_eq!(
        failure(finding, RecoverEvent::Found(Err("gone".to_string()))),
        "Unexpected error: recover: discover_one(b): gone"
    );
    assert_eq!(
        failure(
            RecoverState::Restoring,
            RecoverEvent::Restored(Err("status".to_string()))
        ),
        "Unexpected error: recover: card.restore: status"
    );
}

#[test]
fn recover_sha256_hex_produces_64_char_hex_string() {
    let data = b"hello world";
    let hash = sha256_hex(data);

    assert_eq!(hash.len(), 64);
    assert!(hash.chars().all(|c| c.is_ascii_hexdigit()));
    assert_eq!(
        hash,
        "b94d27b9934d3e08a52e52d7da7dabfac484efe37a5380ee9088f7ace2efcde9"
    );
}

#[test]
fn a_malformed_manifest_is_refused() {
    let result = admit_backup(
        "/tmp/x",
        true,
        ManifestRead::Malformed("line 1".to_string()),
        &Vec::new(),
    );
    let e = result.unwrap_err();
    assert_eq!(e.text(), "recover error: manifest parse: line 1");
    let result = admit_backup(
        "/tmp/x",
        true,
        ManifestRead::Failed("denied".to_string()),
        &Vec::new(),
    );
    assert!(matches!(result, Err(Error::Io(_))));
}

#[test]
fn the_first_fault_is_reported() {
    let (manifest, files) = create_test_backup();
    let mut found = reads(&files);
    found[1] = ArtifactRead::Failed("denied".to_string());
    found[2] = ArtifactRead::Missing;
    let e = verify_artifacts(&manifest.artifacts, &found).unwrap_err();
    assert_eq!(e.text(), "IO error: denied");
    assert!(check_artifact(&manifest.artifacts[0], &found[0]).is_ok());
}

#[test]
fn only_a_single_y_is_a_yes() {
    for yes in ["y\n", "Y", " y "] {
        assert!(take_answer(yes).is_ok());
    }
    for no in ["", "n", "yes", "yy"] {
        assert!(matches!(
            take_answer(no),
            Err(Error::Recover(RecoverError::Declined))
        ));
    }
    assert_eq!(
        confirmation_prompt(3, "/tmp/x"),
        "About to restore 3 artifacts from /tmp/x — proceed? [y/N]"
    );
}

#[test]
fn an_adapter_is_named_or_found() {
    let (manifest, files) = create_test_backup();
    let state = RecoverState::Loading {
        pci: Some("b".to_string()),
    };
    let (_, action) = recover_step(state, "/tmp/x", true, false, loaded(manifest, &files));
    assert!(matches!(action, RecoverAction::Discover(bdf) if bdf == "b"));
    assert_eq!(
        failure(RecoverState::Listing, RecoverEvent::Listed(Ok(Vec::new()))),
        "Unexpected error: recover: no SAS2008 card found — specify --pci"
    );
    assert_eq!(
        failure(RecoverState::Listing, RecoverEvent::Listed(Err("no bus".to_string()))),
        "Unexpected error: recover: failed to enumerate PCI devices: no bus"
    );
}

#[test]
fn a_plan_lists_what_is_written() {
    let (manifest, _) = create_test_backup();
    let list = planned(&manifest.artifacts);
    assert!(!list.is_empty());
    assert!(list.iter().all(|a| a.sha256.len() == 64));
}
