use lsi_flash::cli::diff::{
    analyze_region, boot_zone_differs, compare_files, diff_by_blocks, diff_by_regions, ff_count,
    find_runs, format_block_diff, format_bytes, format_region_diff, print_text, region_type_name,
    BlockDiff, BlockPart, RegionClass, RegionCounts, RegionDiff,
};
use lsi_flash::firmware::flash_layout::{REGION_BACKUP, REGION_FIRMWARE};

fn pct(count: usize, of: usize) -> f64 {
    if of == 0 {
        return 0.0;
    }
    (count as f64 / of as f64) * 100.0
}

fn shares(c: &RegionCounts) -> (f64, RegionClass, f64, f64) {
    (
        pct(c.differ, c.compared),
        c.classification,
        pct(c.a_ff, c.compared),
        pct(c.b_ff, c.compared),
    )
}

fn ff_percentage(data: &[u8]) -> f64 {
    pct(ff_count(data, data.len()), data.len())
}

#[test]
fn boot_critical_flag_tracks_the_zone() {
    let base = vec![0xA5u8; 8 * 1024 * 1024];

    let mut b1 = base.clone();
    b1[0x54_1000] ^= 0xFF;

    let mut b2 = base.clone();
    b2[0x10_0000] ^= 0xFF;

    let out_bc = compare_files("diff-bc-a.bin", &base, "diff-bc-b-bc.bin", &b1).unwrap();
    assert!(
        out_bc.boot_critical_differs,
        "boot-critical change must be flagged"
    );

    let out_safe = compare_files("diff-bc-a.bin", &base, "diff-bc-b-safe.bin", &b2).unwrap();
    assert!(
        !out_safe.boot_critical_differs,
        "non-boot-critical change must not be flagged"
    );
    assert_eq!(out_safe.summary.total_bytes_differ, 1);
}

#[test]
fn test_identical_files() {
    let data = vec![0u8; 1024];
    let (pct, class, a_ff, b_ff) = shares(&analyze_region(&data, &data));

    assert_eq!(pct, 0.0);
    assert_eq!(class, RegionClass::Identical);
    assert_eq!(a_ff, 0.0);
    assert_eq!(b_ff, 0.0);

    let ff_data = vec![0xFFu8; 1024];
    let (pct2, class2, a_ff2, b_ff2) = shares(&analyze_region(&ff_data, &ff_data));

    assert_eq!(pct2, 0.0);
    assert_eq!(class2, RegionClass::Identical);
    assert_eq!(a_ff2, 100.0);
    assert_eq!(b_ff2, 100.0);
}

#[test]
fn test_differing_range() {
    let mut a = vec![0u8; 256];
    let mut b = vec![0xFFu8; 256];

    for i in 0..16 {
        a[i] = 0x00;
        b[i] = 0x01;
    }

    let (pct, class, a_ff, b_ff) = shares(&analyze_region(&a, &b));

    assert_eq!(pct, 100.0);
    assert_eq!(class, RegionClass::BErased);
    assert_eq!(a_ff, 0.0);
    assert!((b_ff - 93.75).abs() < 0.01);
}

#[test]
fn test_erased_classification_a() {
    let a = vec![0xFFu8; 256];
    let b = vec![0x00u8; 256];

    let (pct, class, a_ff, b_ff) = shares(&analyze_region(&a, &b));

    assert_eq!(pct, 100.0);
    assert_eq!(class, RegionClass::AErased);
    assert_eq!(a_ff, 100.0);
    assert_eq!(b_ff, 0.0);
}

#[test]
fn test_erased_classification_b() {
    let a = vec![0x00u8; 256];
    let b = vec![0xFFu8; 256];

    let (pct, class, a_ff, b_ff) = shares(&analyze_region(&a, &b));

    assert_eq!(pct, 100.0);
    assert_eq!(class, RegionClass::BErased);
    assert_eq!(a_ff, 0.0);
    assert_eq!(b_ff, 100.0);
}

#[test]
fn test_block_coalescing() {
    let mut a = vec![0u8; 4096];
    let mut b = vec![0xFFu8; 4096];

    for i in 100..=200 {
        a[i] = 0x00;
        b[i] = 0x01;
    }
    for i in 300..=400 {
        a[i] = 0x00;
        b[i] = 0x02;
    }

    let (blocks, summary) = diff_by_blocks(&a, &b);

    assert!(!blocks.is_empty());
    assert_eq!(summary.total_regions_or_zones, 1);
}

#[test]
fn test_block_with_gap() {
    let mut a = vec![0u8; 4096];
    let mut b = vec![0xFFu8; 4096];

    for i in 100..=200 {
        a[i] = 0x00;
        b[i] = 0xFF;
    }

    let (blocks, _summary) = diff_by_blocks(&a, &b);

    assert!(!blocks.is_empty());
}

#[test]
fn test_ff_percentage() {
    let all_ff = vec![0xFFu8; 100];
    let none_ff = vec![0x00u8; 100];

    let mut half_ff = Vec::new();
    for _ in 0..50 {
        half_ff.push(0xFF);
        half_ff.push(0x00);
    }

    assert_eq!(ff_percentage(&all_ff), 100.0);
    assert_eq!(ff_percentage(&none_ff), 0.0);
    assert_eq!(ff_percentage(&half_ff), 50.0);
}

#[test]
fn test_region_type_names() {
    assert_eq!(region_type_name(REGION_FIRMWARE), "FIRMWARE");
    assert_eq!(region_type_name(REGION_BACKUP), "BACKUP");
    assert_eq!(region_type_name(0xFF), "UNKNOWN_0xFF");
}

#[test]
fn test_empty_file_handling() {
    let result = compare_files("a", &[1u8, 2, 3], "b", &[1u8, 2, 3]);

    assert!(result.is_ok());
    let output = result.unwrap();
    assert!(output.regions.is_none());
    assert!(output.blocks.is_none());
    assert_eq!(output.summary.total_bytes_differ, 0);

    let e = compare_files("a.bin", &[], "b.bin", &[1]).unwrap_err();
    assert_eq!(e, "File A is empty: a.bin");
    let e = compare_files("a.bin", &[1], "b.bin", &[]).unwrap_err();
    assert_eq!(e, "File B is empty: b.bin");
}

#[test]
fn test_no_flash_layout_returns_empty() {
    let data = vec![0u8; 1024];

    let (regions, summary) = diff_by_regions(&data, &data);

    assert!(regions.is_empty());
    assert_eq!(summary.total_regions_or_zones, 0);
}

#[test]
fn test_identical_files_block_diff() {
    let data = vec![0x42u8; 8192];

    let (blocks, summary) = diff_by_blocks(&data, &data);

    assert!(blocks.is_empty());
    assert_eq!(summary.total_bytes_differ, 0);
}

#[test]
fn test_one_byte_diff_block() {
    let a = vec![0u8; 4096];
    let mut b = vec![0xFFu8; 4096];

    b[4095] = 0x01;

    let (blocks, _summary) = diff_by_blocks(&a, &b);

    assert!(!blocks.is_empty());
}

#[test]
fn test_one_byte_diff_block_exact() {
    let a = vec![0u8; 4096];
    let mut b = vec![0u8; 4096];

    b[1234] = 0xFF;

    let (blocks, summary) = diff_by_blocks(&a, &b);

    assert!(!blocks.is_empty());
    assert_eq!(summary.total_bytes_differ, 1);
}

#[test]
fn runs_are_maximal_and_apart() {
    let a = [0u8; 10];
    let mut b = a;
    for i in [0, 1, 4, 8, 9] {
        b[i] = 1;
    }
    assert_eq!(find_runs(&a, &b, 10), vec![(0, 2), (4, 5), (8, 10)]);
    assert_eq!(find_runs(&a, &b, 9), vec![(0, 2), (4, 5), (8, 9)]);
    assert_eq!(find_runs(&a, &a, 10), vec![]);
}

#[test]
fn blocks_join_where_they_touch_and_weigh_what_they_add() {
    let a = vec![0u8; 20000];
    let mut b = a.clone();
    b[10] = 1;
    b[20] = 1;
    b[5000] = 1;
    b[17000] = 1;
    let (blocks, summary) = diff_by_blocks(&a, &b);
    assert_eq!(blocks.len(), 2);
    assert_eq!((blocks[0].start, blocks[0].end, blocks[0].size_kb), (0, 8192, 8));
    let part = |differing: usize, length: usize, weight: usize| BlockPart {
        differing,
        length,
        weight,
    };
    assert_eq!(
        blocks[0].parts,
        vec![part(2, 4096, 4096), part(2, 4096, 0), part(1, 4096, 4096)]
    );
    assert_eq!((blocks[1].start, blocks[1].end, blocks[1].size_kb), (16384, 20000, 3));
    assert_eq!(blocks[1].parts, vec![part(1, 3616, 3616)]);
    assert_eq!(summary.total_bytes_differ, 6);
    assert_eq!(summary.total_regions_or_zones, 2);
    let exact = compare_files("a", &a, "b", &b).unwrap();
    assert_eq!(exact.summary.total_bytes_differ, 4);
    assert!(!exact.layout_parsed);
    assert_eq!(exact.blocks.as_ref().map(|v| v.len()), Some(2));
}

#[test]
fn every_difference_lies_in_a_block() {
    let a: Vec<u8> = (0..30000u32).map(|i| (i % 251) as u8).collect();
    let mut b = a.clone();
    for i in (0..30000).step_by(1777) {
        b[i] ^= 0x55;
    }
    let (blocks, _) = diff_by_blocks(&a, &b);
    for i in 0..a.len() {
        if a[i] != b[i] {
            assert!(blocks
                .iter()
                .any(|k| k.start <= i as u64 && (i as u64) < k.end));
        }
    }
}

#[test]
fn boot_zone_is_cut_to_the_common_length() {
    let a = vec![0u8; 0x54_0001];
    let mut b = vec![0u8; 0x54_0002];
    assert!(!boot_zone_differs(&a, &b));
    b[0x54_0001] = 1;
    assert!(!boot_zone_differs(&a, &b));
    b[0x54_0000] = 1;
    assert!(boot_zone_differs(&a, &b));
    assert!(!boot_zone_differs(&a[..0x54_0000], &b));
}

#[test]
fn ninety_percent_is_not_yet_erased() {
    let mut a = vec![0xFFu8; 90];
    a.extend_from_slice(&[1; 10]);
    let b = vec![2u8; 100];
    assert_eq!(analyze_region(&a, &b).classification, RegionClass::Differs);
    a[90] = 0xFF;
    assert_eq!(analyze_region(&a, &b).classification, RegionClass::AErased);
    assert_eq!(analyze_region(&[], &b).classification, RegionClass::Identical);
    assert_eq!(RegionClass::AErased.text(), "A_ERASED");
    assert_eq!(RegionClass::BErased.text(), "B_ERASED");
    assert_eq!(RegionClass::Identical.text(), "IDENTICAL");
    assert_eq!(RegionClass::Differs.text(), "DIFFERS");
}

#[test]
fn counts_have_commas() {
    assert_eq!(format_bytes(0), "0");
    assert_eq!(format_bytes(999), "999");
    assert_eq!(format_bytes(1000), "1,000");
    assert_eq!(format_bytes(1002003), "1,002,003");
}

#[test]
fn lines_on_regions_and_blocks() {
    let d = RegionDiff {
        region_type: REGION_FIRMWARE,
        offset: 0x2000,
        size: 0x100000,
        counts: RegionCounts {
            compared: 0x100000,
            differ: 1,
            a_ff: 0,
            b_ff: 0,
            classification: RegionClass::Differs,
        },
    };
    assert_eq!(
        format_region_diff(&d, "0.00", "0.0", "12.5"),
        "FIRMWARE     @0x002000     1024KB   0.00% differ  A:  0.0%FF B: 12.5%FF  DIFFERS"
    );
    let b = BlockDiff {
        start: 0x1000,
        end: 0x2000,
        size_kb: 4,
        parts: Vec::new(),
    };
    assert_eq!(
        format_block_diff(&b, "1.56"),
        "0x00001000-0x00002000 (   4KB)  1.56% differ"
    );
}

#[test]
fn text_of_a_comparison() {
    let a = vec![0u8; 5000];
    let mut b = a.clone();
    b[0] = 1;
    let out = compare_files("x", &a, "y", &b).unwrap();
    let lines = print_text(&out, vec!["row".to_string()]);
    assert_eq!(
        lines,
        vec![
            "File A: x (5,000 bytes)",
            "File B: y (5,000 bytes)\n",
            "Block diff (no FLASH_LAYOUT):",
            "",
            "row",
            "\nSummary: 1 bytes differ, 1 region(s)/zone(s)",
        ]
    );
}
