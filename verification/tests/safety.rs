use lsi_flash::cli::safety::{
    check_all, check_lvm, check_mdraid, check_mounted, check_zfs, concern_text,
    devices_attached_to_card, is_mounted_device, parse_pvs, parse_zpool, readable_lines, run_tool, SafetyConcern,
    SafetyError, SystemState, TextSource, ToolOutcome,
};
use lsi_flash::text::{chars_of, split_words, string_of};

fn disks(names: &[&str]) -> Vec<String> {
    names.iter().map(|n| n.to_string()).collect()
}

fn missing(tool: &str) -> ToolOutcome {
    ToolOutcome::Failed(run_tool(tool, false, "not found"))
}

fn printed(text: &str) -> ToolOutcome {
    ToolOutcome::Ran {
        success: true,
        stdout: text.as_bytes().to_vec(),
    }
}

fn quiet() -> SystemState {
    SystemState {
        mounts: TextSource::Text(String::new()),
        pvs: missing("pvs"),
        mdstat: Some(String::new()),
        zpool: missing("zpool"),
    }
}

fn words_of(line: &str) -> Vec<String> {
    split_words(&chars_of(line))
        .iter()
        .map(|w| string_of(w))
        .collect()
}

#[test]
fn safety_concern_human_message_is_actionable() {
    let c = SafetyConcern::MountedFilesystem {
        device: "/dev/sdb1".into(),
        mountpoint: "/srv/data".into(),
        fstype: "ext4".into(),
    };
    let msg = c.human();
    assert!(msg.contains("/srv/data"));
    assert!(msg.contains("umount"));
}

#[test]
fn safety_concern_lvm_message_includes_vg_name() {
    let c = SafetyConcern::LvmPhysicalVolume {
        device: "/dev/sdb".into(),
        vg_name: "data".into(),
    };
    let msg = c.human();
    assert!(msg.contains("vgchange"));
    assert!(msg.contains("data"));
}

#[test]
fn safety_concern_mdraid_message_includes_array() {
    let c = SafetyConcern::MdraidMember {
        device: "/dev/sdb1".into(),
        array_name: "md0".into(),
    };
    let msg = c.human();
    assert!(msg.contains("mdadm"));
    assert!(msg.contains("/dev/md0"));
}

#[test]
fn safety_concern_zfs_message_includes_pool() {
    let c = SafetyConcern::ZfsVdev {
        device: "/dev/sdb".into(),
        pool_name: "storage".into(),
    };
    let msg = c.human();
    assert!(msg.contains("zpool"));
    assert!(msg.contains("export"));
}

#[test]
fn is_mounted_device_matches_exact() {
    assert!(is_mounted_device("/dev/sdb1", "/dev/sdb1"));
}

#[test]
fn is_mounted_device_matches_partition() {
    assert!(is_mounted_device("/dev/sdb1", "/dev/sdb"));
    assert!(is_mounted_device("/dev/sdb99", "/dev/sdb"));
}

#[test]
fn is_mounted_device_no_match_different_disk() {
    assert!(!is_mounted_device("/dev/sdc1", "/dev/sdb"));
}

#[test]
fn is_mounted_device_no_match_partial_name() {
    assert!(!is_mounted_device("/dev/sda", "/dev/sd"));
}

#[test]
fn check_lvm_returns_empty_when_pvs_missing() {
    let devices = disks(&["/dev/sdb"]);
    let result = check_lvm(&devices, &missing("pvs"));
    assert!(result.is_empty());
}

#[test]
fn check_zfs_handles_missing_zpool_tool() {
    let devices = disks(&["/dev/sdb"]);
    let result = check_zfs(&devices, &missing("zpool"));
    assert!(result.is_empty());
}

#[test]
fn check_all_aggregates_concerns_from_all_subsystems() {
    let devices = disks(&["/dev/sdb"]);
    let result = check_all(&devices, &quiet());
    assert!(result.is_ok());

    let state = SystemState {
        mounts: TextSource::Text("/dev/sdb1 /mnt/data ext4 rw,relatime 0 0\n".to_string()),
        pvs: printed("  PV  VG Fmt\n  /dev/sdb2 vg0 lvm2\n"),
        mdstat: Some("md0 : active raid1 sdb3[0] sdc1[1]\n".to_string()),
        zpool: printed("pool: storage\n  /dev/sdb4 (mirror)\n"),
    };
    let found = check_all(&devices, &state).unwrap();
    assert_eq!(found.len(), 4);
    assert!(
        matches!(&found[0], SafetyConcern::MountedFilesystem { mountpoint, .. } if mountpoint == "/mnt/data")
    );
    assert!(matches!(&found[1], SafetyConcern::LvmPhysicalVolume { vg_name, .. } if vg_name == "vg0"));
    assert!(
        matches!(&found[2], SafetyConcern::MdraidMember { device, array_name } if device == "/dev/sdb3" && array_name == "md0")
    );
    assert!(matches!(&found[3], SafetyConcern::ZfsVdev { pool_name, .. } if pool_name == "storage"));
    let text = concern_text(&found);
    assert_eq!(text.matches("\n\n").count(), 3);
}

#[test]
fn integration_check_all_with_no_concerns_returns_empty() {
    let devices = disks(&["/dev/sdb99"]);
    let result = check_all(&devices, &quiet());
    assert!(result.is_ok());

    let concerns = result.unwrap();
    assert!(
        concerns.is_empty(),
        "Should have no concerns for non-existent device"
    );
}

#[test]
fn parse_proc_mounts_format() {
    let test_line = "/dev/sdb1 /mnt/data ext4 rw,relatime 0 0";
    let parts = words_of(test_line);

    assert_eq!(parts.len(), 6);
    assert_eq!(parts[0], "/dev/sdb1");
    assert_eq!(parts[1], "/mnt/data");
    assert_eq!(parts[2], "ext4");
}

#[test]
fn check_mounted_handles_empty_proc_mounts() {
    let devices = disks(&["/dev/sdb"]);
    for text in ["", "\n", "one two\n"] {
        let result = check_mounted(&devices, &TextSource::Text(text.to_string()));
        assert!(result.is_ok());
        assert!(result.unwrap().is_empty());
    }
    assert!(check_mounted(&devices, &TextSource::Missing).unwrap().is_empty());
}

#[test]
fn check_mdraid_parses_proc_mdstat_format() {
    let test_line = "md0 : active raid1 sdb1[0] sdc1[1]";

    assert!(test_line.starts_with("md"));
    assert!(test_line.contains(":"));

    let parts = words_of(test_line);
    assert_eq!(parts[0], "md0");

    let found = check_mdraid(&disks(&["/dev/sdb", "/dev/sdc"]), &Some(test_line.to_string()));
    let devices: Vec<&str> = found
        .iter()
        .map(|c| match c {
            SafetyConcern::MdraidMember { device, array_name } => {
                assert_eq!(array_name, "md0");
                device.as_str()
            }
            _ => panic!("expected a member of an array"),
        })
        .collect();
    assert_eq!(devices, vec!["/dev/sdb1", "/dev/sdc1"]);
}

#[test]
fn check_zfs_parses_pool_status_format() {
    let pool_line = "pool: storage";
    let device_line = "  /dev/sdb (mirror)";

    assert!(pool_line.starts_with("pool:"));
    assert!(device_line.trim_start().starts_with("/dev/"));

    let report = format!("{}\n{}\n", pool_line, device_line);
    let found = parse_zpool(&disks(&["/dev/sdb"]), &report);
    assert_eq!(found.len(), 1);
    assert!(
        matches!(&found[0], SafetyConcern::ZfsVdev { device, pool_name } if device == "/dev/sdb" && pool_name == "storage")
    );
}

#[test]
fn devices_attached_to_card_returns_empty_for_missing_bdf() {
    let result = devices_attached_to_card(&Vec::new());
    assert!(result.is_empty());
}

#[test]
fn check_all_returns_multiple_concerns_when_present() {
    let mut concerns = vec![SafetyConcern::MountedFilesystem {
        device: "/dev/sdb1".into(),
        mountpoint: "/mnt/data".into(),
        fstype: "ext4".into(),
    }];

    concerns.push(SafetyConcern::LvmPhysicalVolume {
        device: "/dev/sdc".into(),
        vg_name: "vg0".into(),
    });

    assert_eq!(concerns.len(), 2);
    assert!(matches!(
        concerns[0],
        SafetyConcern::MountedFilesystem { .. }
    ));
    assert!(matches!(
        concerns[1],
        SafetyConcern::LvmPhysicalVolume { .. }
    ));
}

#[test]
fn safety_concern_clone_works() {
    let c1 = SafetyConcern::MountedFilesystem {
        device: "/dev/sdb1".into(),
        mountpoint: "/mnt/data".into(),
        fstype: "ext4".into(),
    };

    let c2 = c1.clone();
    assert_eq!(c1.human(), c2.human());
}

#[test]
fn check_all_with_empty_device_list_returns_empty() {
    let devices: Vec<String> = vec![];
    let state = SystemState {
        mounts: TextSource::Text("/dev/sdb1 /mnt ext4 rw 0 0\n".to_string()),
        pvs: printed("/dev/sdb vg0\n"),
        mdstat: Some("md0 : active raid1 sdb1[0]\n".to_string()),
        zpool: printed("pool: p\n/dev/sdb\n"),
    };
    let result = check_all(&devices, &state);

    assert!(result.is_ok());
    assert!(result.unwrap().is_empty());
}

#[test]
fn safety_concern_debug_impl_works() {
    let c = SafetyConcern::MountedFilesystem {
        device: "/dev/sdb1".into(),
        mountpoint: "/mnt/data".into(),
        fstype: "ext4".into(),
    };

    let debug_str = format!("{:?}", c);
    assert!(debug_str.contains("MountedFilesystem"));
}

#[test]
fn disks_are_listed_once_and_others_left_out() {
    let names = disks(&["sdb", "sr0", "nvme0n1", "sdb", "vda", "loop1"]);
    assert_eq!(
        devices_attached_to_card(&names),
        vec!["/dev/sdb", "/dev/nvme0n1", "/dev/vda"]
    );
}

#[test]
fn a_broken_list_of_mounts_is_an_error() {
    let mut state = quiet();
    state.mounts = TextSource::Broken("invalid UTF-8".to_string());
    let e = check_all(&disks(&["/dev/sdb"]), &state).unwrap_err();
    assert!(matches!(&e, SafetyError::Io(_)));
    assert_eq!(e.text(), "io: invalid UTF-8");
}

#[test]
fn a_tool_that_cannot_be_run_is_named() {
    assert_eq!(
        run_tool("pvs", false, "x").text(),
        "failed to execute pvs: command not found"
    );
    assert_eq!(
        run_tool("zpool", true, "permission denied").text(),
        "failed to execute zpool: permission denied"
    );
}

#[test]
fn a_failing_tool_finds_nothing() {
    let failed = ToolOutcome::Ran {
        success: false,
        stdout: b"/dev/sdb vg0\n".to_vec(),
    };
    assert!(check_lvm(&disks(&["/dev/sdb"]), &failed).is_empty());
    assert!(check_zfs(&disks(&["/dev/sdb"]), &failed).is_empty());
}

#[test]
fn output_that_is_no_text_is_still_searched() {
    let mut stdout = vec![0xFF, b'\n'];
    stdout.extend_from_slice(b"/dev/sdb1 vg0\n");
    let ran = ToolOutcome::Ran {
        success: true,
        stdout,
    };
    assert_eq!(check_lvm(&disks(&["/dev/sdb"]), &ran).len(), 1);
}

#[test]
fn the_headings_of_pvs_are_no_volume() {
    assert!(parse_pvs(&disks(&["PV"]), "PV VG\n").is_empty());
    assert_eq!(parse_pvs(&disks(&["/dev/sdb"]), "  /dev/sdb7  data  lvm2 a--\n").len(), 1);
}

#[test]
fn members_on_later_lines_need_their_role() {
    let d = disks(&["/dev/sdb", "/dev/sdc"]);
    let text = "Personalities : [raid1]\nsdb1[0]\nmd127 : active raid1 sdb1\n      sdc1[1](F) sdc2\nunused devices: <none>\n";
    let found = check_mdraid(&d, &Some(text.to_string()));
    assert_eq!(found.len(), 2);
    assert!(matches!(&found[0], SafetyConcern::MdraidMember { device, .. } if device == "/dev/sdb1"));
    assert!(
        matches!(&found[1], SafetyConcern::MdraidMember { device, array_name } if device == "/dev/sdc1" && array_name == "md127")
    );
    assert!(check_mdraid(&d, &None).is_empty());
}

#[test]
fn a_member_of_two_listed_disks_counts_for_each() {
    let d = disks(&["/dev/sdb", "/dev/sdb1"]);
    let found = check_mdraid(&d, &Some("md0 : active raid1 sdb1[0]".to_string()));
    assert_eq!(found.len(), 2);
}

#[test]
fn human_texts_are_exact() {
    let c = SafetyConcern::LvmPhysicalVolume {
        device: "/dev/sdb".into(),
        vg_name: "data".into(),
    };
    assert_eq!(
        c.human(),
        "Block device /dev/sdb is an LVM physical volume in volume group 'data'.\nFlashing would brick the VG.\n  Fix: 'vgchange -an data' or 'pvmove' off this disk before flashing."
    );
}

#[test]
fn a_member_is_named_up_to_its_role() {
    let device = |text: &str, disk: &str| {
        check_mdraid(&disks(&[disk]), &Some(text.to_string()))
            .into_iter()
            .map(|c| match c {
                SafetyConcern::MdraidMember { device, .. } => device,
                _ => panic!("expected a member of an array"),
            })
            .collect::<Vec<String>>()
    };
    assert_eq!(device("md0 : active sdb1]\n", "/dev/sdb"), ["/dev/sdb1"]);
    assert_eq!(device("md0 : active\n  sdb2[0](S)\n", "/dev/sdb"), ["/dev/sdb2"]);
    assert_eq!(device("md0 : active\n  sdb]1[0]\n", "/dev/sdb]1"), ["/dev/sdb]1"]);
    assert!(device("md0 : active\n  sdb]1[0]\n", "/dev/sdb").is_empty());
}

#[test]
fn a_line_that_is_no_text_is_passed_over() {
    assert_eq!(readable_lines(b""), "");
    assert_eq!(readable_lines(b"a\nb"), "a\nb\n");
    assert_eq!(readable_lines(b"a\n\xFF\xFE\nb\n"), "a\nb\n");
    assert_eq!(readable_lines("ä\n\n".as_bytes()), "ä\n\n");
}
