use lsi_flash::card::mpt::{
    backup, backup_begin, backup_manifest, backup_report, build_download_request,
    build_facts_request, build_upload_request, check_region, image_write, image_write_begin,
    judge_download, judge_upload, restore, restore_begin, restore_report, sbr_read_error,
    sbr_transport, BackupAction, BackupEvent, ImageWriteAction, ManifestReadFault,
    ManifestSaveFault, MptCard, RestoreAction, RestoreEvent, SbrTransportKind,
};
use lsi_flash::card::{
    chip_family_from_pci, discover, discover_one, is_mock_bdf, parse_pci_id, read_pci_ids,
    BackupArtifact, BackupManifest, CardError, CardIdentity, ChipFamily, PciDevice,
};
use lsi_flash::card_database::CardInfo;
use lsi_flash::digest::sha256_hex;
use lsi_flash::mpi::messages::{ImageType, MpiFunction};

fn identity() -> CardIdentity {
    CardIdentity {
        bdf: "0000:03:00.0".to_string(),
        vendor_id: 0x1000,
        device_id: 0x0072,
        subsystem_vid: Some(0x1028),
        subsystem_did: Some(0x1F1D),
        chip_family: ChipFamily::Sas2008,
        friendly_name: Some("Dell PERC H200 Adapter".to_string()),
    }
}

fn size_of(t: ImageType) -> u32 {
    match t {
        ImageType::Fw => 885000u32,
        ImageType::Bios => 65536u32,
        ImageType::FlashLayout => 32768u32,
        _ => 0,
    }
}

fn answer_upload(request: &[u8], buffer: usize) -> BackupEvent {
    assert_eq!(request.len(), 36);
    assert_eq!(request[3], MpiFunction::FwUpload.as_u8());
    let t = ImageType::from_u8(request[0]).unwrap();
    let mut reply = vec![0u8; 32];
    reply[20..24].copy_from_slice(&size_of(t).to_le_bytes());
    let data = (0..buffer).map(|i| (i % 256) as u8).collect();
    BackupEvent::Uploaded {
        sent: Ok(32),
        reply,
        data,
    }
}

fn artifact(path: &str, image_type: &str, data: &[u8]) -> BackupArtifact {
    BackupArtifact {
        path: path.to_string(),
        image_type: image_type.to_string(),
        sha256: sha256_hex(data),
        size: data.len() as u64,
    }
}

fn manifest(artifacts: Vec<BackupArtifact>) -> BackupManifest {
    BackupManifest {
        timestamp: "2026-01-01T00:00:00Z".to_string(),
        sas_wwn: None,
        artifacts,
        source_card: None,
    }
}

fn drive_restore(
    files: &[(&str, Vec<u8>)],
    listed: &dyn Fn() -> BackupManifest,
    send: &mut dyn FnMut(&[u8], &[u8]) -> Vec<u8>,
) -> Result<Vec<String>, CardError> {
    let (mut state, mut action) = restore_begin();
    loop {
        let event = match action {
            RestoreAction::Finish(r) => return r,
            RestoreAction::ReadRegion(name) => RestoreEvent::Region {
                file: files
                    .iter()
                    .find(|f| f.0 == name)
                    .map(|f| f.1.clone())
                    .ok_or("No such file".to_string()),
                manifest: Ok(listed()),
            },
            RestoreAction::Download { request, data, .. } => {
                let reply = send(&request, &data);
                RestoreEvent::Downloaded {
                    sent: Ok(32),
                    reply,
                }
            }
        };
        let next = restore(state, event);
        state = next.0;
        action = next.1;
    }
}

#[test]
fn test_chip_family_from_pci_known_mappings() {
    assert_eq!(chip_family_from_pci(0x1000, 0x0072), ChipFamily::Sas2008);
    assert_eq!(chip_family_from_pci(0x1000, 0x0073), ChipFamily::Sas2008);
    assert_eq!(chip_family_from_pci(0x1000, 0x0084), ChipFamily::Sas2208);
    assert_eq!(chip_family_from_pci(0x1000, 0x00C0), ChipFamily::Sas3008);
}

#[test]
fn test_chip_family_from_pci_unknown() {
    assert_eq!(chip_family_from_pci(0x1234, 0x5678), ChipFamily::Unknown);
    assert_eq!(chip_family_from_pci(0x1000, 0x0085), ChipFamily::Unknown);
    assert_eq!(chip_family_from_pci(0x1000, 0x00C1), ChipFamily::Unknown);
}

#[test]
fn test_identity_returns_correct_values() {
    let card = MptCard::new(identity());

    let identity = card.identity();
    assert_eq!(identity.bdf, "0000:03:00.0");
    assert_eq!(identity.vendor_id, 0x1000);
    assert_eq!(identity.device_id, 0x0072);
    assert_eq!(identity.subsystem_vid, Some(0x1028));
    assert_eq!(identity.subsystem_did, Some(0x1F1D));
    assert_eq!(identity.chip_family, ChipFamily::Sas2008);
    assert_eq!(
        identity.friendly_name,
        Some("Dell PERC H200 Adapter".to_string())
    );
}

#[test]
fn test_current_personality_returns_not_implemented() {
    let card = MptCard::new(CardIdentity {
        bdf: "0000:03:00.0".to_string(),
        vendor_id: 0x1000,
        device_id: 0x0072,
        subsystem_vid: None,
        subsystem_did: None,
        chip_family: ChipFamily::Sas2008,
        friendly_name: None,
    });

    let result = card.current_personality();
    assert!(matches!(
        result,
        Err(CardError::NotImplemented("current_personality"))
    ));
}

#[test]
fn test_detect_returns_correct_report() {
    let card = MptCard::new(CardIdentity {
        bdf: "0000:04:00.0".to_string(),
        vendor_id: 0x1000,
        device_id: 0x0072,
        subsystem_vid: Some(0x1028),
        subsystem_did: Some(0x1F51),
        chip_family: ChipFamily::Sas2008,
        friendly_name: Some("Dell H310 Mini Monolithics".to_string()),
    });

    let request = build_facts_request();
    assert_eq!(request.len(), 12);
    assert_eq!(request[3], MpiFunction::IocFacts.as_u8());

    let report = card.detect(Ok(()), &[0u8; 16]).unwrap();
    assert_eq!(report.bdf, "0000:04:00.0");
    assert_eq!(report.chip_family, ChipFamily::Sas2008);
}

#[test]
fn test_backup_writes_artifacts() {
    let card = MptCard::new(identity());

    let mut files: Vec<String> = Vec::new();
    let (mut state, mut action) = backup_begin();
    let artifacts = loop {
        let event = match action {
            BackupAction::Finish(r) => break r.unwrap(),
            BackupAction::Upload {
                request, buffer, ..
            } => answer_upload(&request, buffer),
            BackupAction::Save { file, data } => {
                assert!(!data.is_empty());
                files.push(file.to_string());
                BackupEvent::Saved(Ok(()))
            }
            BackupAction::SaveManifest(list) => {
                assert_eq!(list.len(), 3);
                let m = backup_manifest(&card, "t".to_string(), list);
                assert_eq!(m.source_card.as_ref().map(|s| s.pci_did), Some(0x0072));
                files.push("manifest.toml".to_string());
                BackupEvent::ManifestSaved(Ok(()))
            }
        };
        let next = backup(state, event);
        state = next.0;
        action = next.1;
    };

    let report = backup_report("t".to_string(), artifacts);

    assert_eq!(report.artifacts_count, 3);
    assert_eq!(report.artifacts[0].size, 885000);
    assert_eq!(report.artifacts[1].image_type, "Bios");

    for name in ["firmware.bin", "bios.rom", "nvdata.bin", "manifest.toml"] {
        assert!(files.iter().any(|f| f == name));
    }
}

#[test]
fn test_restore_sends_fw_download_per_region() {
    let fw_size = 1000usize;
    let bios_size = 500usize;
    let files = [
        ("firmware.bin", vec![0xAA; fw_size]),
        ("bios.rom", vec![0xBB; bios_size]),
    ];
    let listed = || {
        manifest(vec![
            artifact("firmware.bin", "Fw", &vec![0xAA; fw_size]),
            artifact("bios.rom", "Bios", &vec![0xBB; bios_size]),
        ])
    };

    let mut calls: Vec<(ImageType, usize, u32)> = Vec::new();
    let regions = drive_restore(&files, &listed, &mut |request, data| {
        assert_eq!(request.len(), 36);
        assert_eq!(request[3], MpiFunction::FwDownload.as_u8());
        let image_type = ImageType::from_u8(request[0]).unwrap();
        let total_image_size =
            u32::from_le_bytes([request[12], request[13], request[14], request[15]]);
        let chunk_size =
            u32::from_le_bytes([request[32], request[33], request[34], request[35]]) as usize;
        assert!(!data.is_empty(), "data_out should carry file bytes");
        assert_eq!(chunk_size, data.len());
        calls.push((image_type, chunk_size, total_image_size));
        vec![0u8; 32]
    })
    .unwrap();
    let report = restore_report("t".to_string(), regions);

    assert_eq!(report.regions_written, 2);
    assert_eq!(report.regions.len(), 2);
    assert!(report.regions.contains(&"firmware.bin".to_string()));
    assert!(report.regions.contains(&"bios.rom".to_string()));

    assert!(
        calls.len() >= 2,
        "Should have at least 2 FW_DOWNLOAD calls (one per region)"
    );

    let mut fw_total_size_seen = None;
    let mut bios_total_size_seen = None;

    for (image_type, _chunk_size, total_image_size) in &calls {
        match image_type {
            ImageType::Fw => {
                fw_total_size_seen = Some(*total_image_size);
                assert_eq!(
                    *total_image_size, fw_size as u32,
                    "TotalImageSize for firmware.bin must equal file length ({})",
                    fw_size
                );
            }
            ImageType::Bios => {
                bios_total_size_seen = Some(*total_image_size);
                assert_eq!(
                    *total_image_size, bios_size as u32,
                    "TotalImageSize for bios.rom must equal file length ({})",
                    bios_size
                );
            }
            _ => {}
        }
    }

    assert!(
        fw_total_size_seen.is_some(),
        "Should have seen firmware.bin TotalImageSize"
    );
    assert!(
        bios_total_size_seen.is_some(),
        "Should have seen bios.rom TotalImageSize"
    );
}

#[test]
fn test_restore_hard_stops_on_iocstatus_failure() {
    let fw_content = vec![0xAA; 100];
    let bios_content = vec![0xBB; 200];
    let files = [
        ("firmware.bin", fw_content.clone()),
        ("bios.rom", bios_content.clone()),
    ];
    let listed = || {
        manifest(vec![
            artifact("firmware.bin", "Fw", &fw_content),
            artifact("bios.rom", "Bios", &bios_content),
        ])
    };

    let result = drive_restore(&files, &listed, &mut |request, _data| {
        let mut reply = vec![0u8; 32];
        if ImageType::from_u8(request[0]).unwrap() == ImageType::Bios {
            reply[14] = 0x04;
        }
        reply
    });

    assert!(result.is_err());

    if let Err(e) = result {
        assert!(
            e.text().to_lowercase().contains("status"),
            "Error should mention status"
        );
    }
}

#[test]
fn test_restore_refuses_corrupt_or_truncated_region() {
    let original_content = vec![0xCC; 256];
    let files = [("firmware.bin", original_content.clone())];
    let listed = || {
        manifest(vec![BackupArtifact {
            path: "firmware.bin".to_string(),
            image_type: "Fw".to_string(),
            sha256: "wrongsha256value1234567890abcdef1234567890abcdef1234567890abcd".to_string(),
            size: 256u64,
        }])
    };

    let result = drive_restore(&files, &listed, &mut |_request, _data| {
        panic!("Should not send FW_DOWNLOAD after manifest integrity failure")
    });

    assert!(result.is_err());
    if let Err(e) = result {
        let err_str = e.text();
        assert!(
            err_str.to_lowercase().contains("sha256")
                || err_str.to_lowercase().contains("mismatch"),
            "Error should mention SHA256 or mismatch: {}",
            err_str
        );
    }
}

#[test]
fn mptcard_is_send() {
    fn assert_send<T: Send + ?Sized>() {}
    assert_send::<MptCard>();
}

#[test]
fn card_identity_fields_readable() {
    let identity = CardIdentity {
        bdf: "0000:03:00.0".to_string(),
        vendor_id: 0x1000,
        device_id: 0x0072,
        subsystem_vid: Some(0x1028),
        subsystem_did: Some(0x1F1D),
        chip_family: ChipFamily::Sas2008,
        friendly_name: Some("Dell PERC H200 Adapter".to_string()),
    };

    assert_eq!(identity.bdf, "0000:03:00.0");
    assert_eq!(identity.vendor_id, 0x1000);
    assert_eq!(identity.device_id, 0x0072);
    assert_eq!(identity.subsystem_vid, Some(0x1028));
    assert_eq!(identity.subsystem_did, Some(0x1F1D));
    assert_eq!(identity.chip_family, ChipFamily::Sas2008);
    assert_eq!(
        identity.friendly_name,
        Some("Dell PERC H200 Adapter".to_string())
    );
}

#[test]
fn card_identity_clone_preserves_all_fields() {
    let original = CardIdentity {
        bdf: "0000:04:00.0".to_string(),
        vendor_id: 0x1000,
        device_id: 0x0073,
        subsystem_vid: Some(0x1028),
        subsystem_did: Some(0x1F51),
        chip_family: ChipFamily::Sas2008,
        friendly_name: Some("Dell H310 Mini Monolithics".to_string()),
    };

    let cloned = original.clone();

    assert_eq!(original.bdf, cloned.bdf);
    assert_eq!(original.vendor_id, cloned.vendor_id);
    assert_eq!(original.device_id, cloned.device_id);
    assert_eq!(original.subsystem_vid, cloned.subsystem_vid);
    assert_eq!(original.subsystem_did, cloned.subsystem_did);
    assert_eq!(original.chip_family, cloned.chip_family);
    assert_eq!(original.friendly_name, cloned.friendly_name);
}

#[test]
fn card_error_display_formats_all_variants() {
    let no_cards = CardError::NoCardsFound;
    assert_eq!(no_cards.text(), "no cards found on PCI bus");

    let unsupported = CardError::UnsupportedCard(0x1234, 0x5678);
    assert_eq!(unsupported.text(), "unsupported card: VID:DID 1234:5678");

    let pci_err = CardError::PciEnumeration("sysfs walk failed".to_string());
    assert_eq!(pci_err.text(), "pci enumeration: sysfs walk failed");

    let io_err = std::io::Error::new(std::io::ErrorKind::NotFound, "file not found");
    let transport_err = CardError::Transport(io_err.to_string());
    assert_eq!(transport_err.text(), "transport: file not found");

    let not_impl = CardError::NotImplemented("MptCard");
    assert_eq!(not_impl.text(), "not yet implemented: MptCard");
}

#[test]
fn discover_returns_not_implemented_or_no_cards_error() {
    let none: Vec<Result<MptCard, CardError>> = Vec::new();
    assert!(matches!(discover(none), Err(CardError::NoCardsFound)));

    let shut: Vec<Result<MptCard, CardError>> =
        vec![Err(CardError::Transport("mpt3ctl".to_string()))];
    assert!(matches!(discover(shut), Err(CardError::NoCardsFound)));

    let mixed = vec![
        Err(CardError::Transport("mpt3ctl".to_string())),
        Ok(MptCard::new(identity())),
    ];
    let found = discover(mixed).unwrap();
    assert_eq!(found.len(), 1);
}

#[test]
fn discover_one_returns_error_for_nonexistent_bdf() {
    let gone = || Err("No such file or directory (os error 2)".to_string());
    let result = discover_one("0000:99:99.9", gone(), gone());
    assert!(result.is_err());

    let result = MptCard::discover_one("0000:99:99.9", &[], &[]);
    assert!(matches!(result, Err(CardError::UnsupportedCard(0, 0))));
}

#[test]
fn chip_family_debug_format() {
    let sas2008 = format!("{:?}", ChipFamily::Sas2008);
    assert_eq!(sas2008, "Sas2008");

    let unknown = format!("{:?}", ChipFamily::Unknown);
    assert_eq!(unknown, "Unknown");
}

#[test]
fn chip_family_partial_eq_works() {
    assert_eq!(ChipFamily::Sas2008, ChipFamily::Sas2008);
    assert_ne!(ChipFamily::Sas2008, ChipFamily::Sas3008);
    assert_ne!(ChipFamily::Unknown, ChipFamily::Sas2008);

    let families = [
        ChipFamily::Sas2008,
        ChipFamily::Sas2208,
        ChipFamily::Sas3008,
        ChipFamily::Unknown,
    ];

    for (i, f1) in families.iter().enumerate() {
        for (j, f2) in families.iter().enumerate() {
            if i == j {
                assert_eq!(f1, f2);
            } else if *f1 != *f2 {
                assert_ne!(f1, f2);
            }
        }
    }
}

#[test]
fn test_api_reachable() {
    let _error: Result<(), lsi_flash::Error> = Err(lsi_flash::Error::Io("test".to_string()));
    let _card_error: Result<(), lsi_flash::CardError> = Err(lsi_flash::CardError::NoCardsFound);
    let _family: lsi_flash::ChipFamily = lsi_flash::ChipFamily::Sas2008;
    let found: Result<Vec<MptCard>, lsi_flash::CardError> = lsi_flash::discover(Vec::new());
    assert!(found.is_err());
    assert!(lsi_flash::discover_one("x", Err("e".to_string()), Err("e".to_string())).is_err());
}

#[test]
fn pci_numbers_are_read_from_their_files() {
    let read = |s: &str| Ok(s.to_string());
    assert_eq!(
        read_pci_ids("0000:03:00.0", read("0x1000\n"), read("0x0072\n")).unwrap(),
        (0x1000, 0x0072)
    );
    assert_eq!(
        discover_one("0000:03:00.0", read("0x1000\n"), read("0x0072\n")).unwrap(),
        ChipFamily::Sas2008
    );
    assert!(matches!(
        discover_one("0000:03:00.0", read("0x1234"), read("0x5678")),
        Err(CardError::UnsupportedCard(0x1234, 0x5678))
    ));
    assert!(parse_pci_id("b", "vendor", read("zz")).is_err());
    assert!(parse_pci_id("b", "vendor", Err("gone".to_string())).is_err());
}

#[test]
fn an_adapter_is_found_with_its_numbers() {
    let devices = vec![PciDevice {
        bdf: "0000:03:00.0".to_string(),
        vendor_id: 0x1000,
        device_id: 0x0072,
        subsystem_vendor_id: 0x1028,
        subsystem_device_id: 0x1F1D,
    }];
    let cards: Vec<CardInfo> = Vec::new();
    let card = MptCard::discover_one("0000:03:00.0", &devices, &cards).unwrap();
    assert_eq!(card.identity().chip_family, ChipFamily::Sas2008);
    assert_eq!(card.identity().subsystem_vid, Some(0x1028));
    assert_eq!(card.identity().friendly_name, None);
}

#[test]
fn a_failed_detection_says_why() {
    let card = MptCard::new(identity());
    let e = card.detect(Err("no driver".to_string()), &[]).unwrap_err();
    assert_eq!(e.text(), "transport: no driver");
    let e = card.detect(Ok(()), &[0, 0, 0]).unwrap_err();
    assert_eq!(e.text(), "transport: IOC_FACTS reply too short");
    let e = card.detect(Ok(()), &[0, 0, 4, 0]).unwrap_err();
    assert_eq!(e.text(), "transport: IOC_FACTS returned status 0x0004");
}

#[test]
fn an_upload_that_fails_ends_the_backup() {
    let (state, _) = backup_begin();
    let (_, action) = backup(
        state,
        BackupEvent::Uploaded {
            sent: Err("timeout".to_string()),
            reply: vec![0; 32],
            data: Vec::new(),
        },
    );
    match action {
        BackupAction::Finish(Err(e)) => {
            assert_eq!(e.text(), "transport: FW_UPLOAD type=Fw send: timeout")
        }
        _ => panic!("expected the end"),
    }
    let mut reply = vec![0u8; 32];
    reply[14] = 0x04;
    assert!(judge_upload(ImageType::Fw, Ok(32), &reply, &[0; 16]).is_err());
}

#[test]
fn a_file_that_cannot_be_written_ends_the_backup() {
    let (state, action) = backup_begin();
    let event = match action {
        BackupAction::Upload {
            request, buffer, ..
        } => answer_upload(&request, buffer),
        _ => panic!("expected an upload"),
    };
    let (state, _) = backup(state, event);
    let (_, action) = backup(state, BackupEvent::Saved(Err("disk full".to_string())));
    assert!(matches!(action, BackupAction::Finish(Err(CardError::Io(_)))));
    let fault = ManifestSaveFault::Serialize("bad".to_string());
    assert!(matches!(fault, ManifestSaveFault::Serialize(_)));
}

#[test]
fn a_region_must_be_listed_with_its_size_and_digest() {
    let data = vec![7u8; 10];
    let list = vec![artifact("bios.rom", "Bios", &data)];
    assert!(check_region("bios.rom", 10, &sha256_hex(&data), &list).is_ok());
    assert!(check_region("bios.rom", 9, &sha256_hex(&data), &list).is_err());
    assert!(check_region("bios.rom", 10, &sha256_hex(&[1]), &list).is_err());
    let e = check_region("firmware.bin", 10, "x", &list).unwrap_err();
    assert_eq!(
        e.text(),
        "transport: Region firmware.bin not found in backup manifest - refusing to write unverified image"
    );
}

#[test]
fn a_manifest_that_cannot_be_read_ends_the_restore() {
    let (state, _) = restore_begin();
    let (_, action) = restore(
        state,
        RestoreEvent::Region {
            file: Ok(vec![1]),
            manifest: Err(ManifestReadFault::Malformed("line 1".to_string())),
        },
    );
    match action {
        RestoreAction::Finish(Err(e)) => assert_eq!(
            e.text(),
            "transport: Failed to parse backup manifest: line 1"
        ),
        _ => panic!("expected the end"),
    }
}

#[test]
fn requests_name_their_piece() {
    let up = build_upload_request(ImageType::Bios);
    assert_eq!(up.len(), 36);
    assert_eq!(up[0], ImageType::Bios.as_u8());
    let down = build_download_request(ImageType::Fw, 10, 0);
    assert_eq!(down[3], MpiFunction::FwDownload.as_u8());
    assert_eq!(&down[12..16], &10u32.to_le_bytes());
    assert!(judge_download(ImageType::Fw, 10, 0, Ok(32), &[0; 32]).is_ok());
    assert!(judge_download(ImageType::Fw, 10, 0, Err("x".to_string()), &[0; 32]).is_err());
}

#[test]
fn the_way_to_the_boot_record_can_be_chosen() {
    let choose = |s: &str| sbr_transport(&Some(s.to_string()));
    assert!(matches!(choose("istwi"), SbrTransportKind::Istwi));
    assert!(matches!(choose("vfio"), SbrTransportKind::Vfio));
    assert!(matches!(choose("other"), SbrTransportKind::Bar1));
    assert!(matches!(sbr_transport(&None), SbrTransportKind::Bar1));
    assert_eq!(
        SbrTransportKind::Vfio.open_error("x").text(),
        "transport: vfio sbr transport: x"
    );
    assert_eq!(sbr_read_error("bar1", "x").text(), "transport: sbr bar1: x");
}

#[test]
fn a_backup_can_be_restored_whole() {
    let mut files: Vec<(&str, Vec<u8>)> = Vec::new();
    let (mut state, mut action) = backup_begin();
    let artifacts = loop {
        let event = match action {
            BackupAction::Finish(r) => break r.unwrap(),
            BackupAction::Upload {
                request, buffer, ..
            } => answer_upload(&request, buffer),
            BackupAction::Save { file, data } => {
                files.push((file, data));
                BackupEvent::Saved(Ok(()))
            }
            BackupAction::SaveManifest(_) => BackupEvent::ManifestSaved(Ok(())),
        };
        let next = backup(state, event);
        state = next.0;
        action = next.1;
    };

    let mut sent_fw: Vec<u8> = Vec::new();
    let mut sent_bios: Vec<u8> = Vec::new();
    let listed = || manifest(artifacts.clone());
    let regions = drive_restore(&files, &listed, &mut |request, data| {
        let image_type = ImageType::from_u8(request[0]).unwrap();
        let image = if image_type == ImageType::Fw {
            &mut sent_fw
        } else {
            &mut sent_bios
        };
        let offset = u32::from_le_bytes([request[28], request[29], request[30], request[31]]);
        assert_eq!(offset as usize, image.len());
        image.extend_from_slice(data);
        let total = u32::from_le_bytes([request[12], request[13], request[14], request[15]]);
        assert_eq!(request[7] == 1, image.len() == total as usize);
        vec![0u8; 32]
    })
    .unwrap();

    assert_eq!(regions, ["firmware.bin", "bios.rom"]);
    assert_eq!(sent_fw, files[0].1);
    assert_eq!(sent_bios, files[1].1);
    assert_eq!(sent_fw.len(), 885000);
}

#[test]
fn an_adapter_is_of_the_family_of_its_numbers() {
    for (device_id, family) in [
        (0x0072, ChipFamily::Sas2008),
        (0x0073, ChipFamily::Sas2008),
        (0x0084, ChipFamily::Sas2208),
        (0x00C0, ChipFamily::Sas3008),
        (0x1234, ChipFamily::Unknown),
    ] {
        let devices = vec![PciDevice {
            bdf: "0000:03:00.0".to_string(),
            vendor_id: 0x1000,
            device_id,
            subsystem_vendor_id: 0x1028,
            subsystem_device_id: 0x1F51,
        }];
        let card = MptCard::discover_one("0000:03:00.0", &devices, &[]).unwrap();
        assert_eq!(card.identity().chip_family, family);
        assert_eq!(card.identity().chip_family, chip_family_from_pci(0x1000, device_id));
    }
}

#[test]
fn a_region_is_written_piece_by_piece() {
    let image: Vec<u8> = (0..0x9000u32).map(|i| i as u8).collect();
    let (mut state, mut action) = image_write_begin(ImageType::NvData, image.clone());
    let mut written: Vec<u8> = Vec::new();
    let mut last: Vec<u8> = Vec::new();
    let result = loop {
        match action {
            ImageWriteAction::Finish(r) => break r,
            ImageWriteAction::Download {
                request,
                sge_words,
                data,
            } => {
                assert_eq!(sge_words, 9);
                assert_eq!(
                    request,
                    build_download_request(ImageType::NvData, image.len(), written.len())
                );
                last.push(request[7]);
                written.extend_from_slice(&data);
                let next = image_write(state, Ok(32), &[0u8; 32]);
                state = next.0;
                action = next.1;
            }
        }
    };
    assert!(result.is_ok());
    assert_eq!(written, image);
    assert_eq!(last, [0, 0, 1]);
}

#[test]
fn a_region_is_not_written_past_a_failure() {
    let (state, _) = image_write_begin(ImageType::Bios, vec![0u8; 0x9000]);
    let (_, action) = image_write(state, Err("gone".to_string()), &[]);
    match action {
        ImageWriteAction::Finish(Err(e)) => assert_eq!(
            e.text(),
            "transport: FW_DOWNLOAD type=Bios offset=0 size=16384 send: gone"
        ),
        _ => panic!("expected a failure"),
    }
    let (_, action) = image_write_begin(ImageType::Bios, Vec::new());
    assert!(matches!(action, ImageWriteAction::Finish(Ok(()))));
}

#[test]
fn only_one_address_is_simulated() {
    assert!(is_mock_bdf("-1:-1:-1:-1"));
    assert!(!is_mock_bdf("0000:03:00.0"));
    assert!(!is_mock_bdf(""));
}
