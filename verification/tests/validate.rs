//! Validation of images.

use lsi_flash::firmware::validate::{check_fit, is_sas2008_product, validate_image, FwValidation};

#[test]
fn garbage_is_not_well_formed() {
    let v = validate_image(&[0u8; 64]);
    assert!(!v.ok());
    assert_eq!(v.first_failure().unwrap().name, "well-formed");
}

#[test]
fn product_id_allowlist_excludes_sas2208() {
    assert!(!is_sas2008_product(0x2221));
    assert!(is_sas2008_product(0x2713));
    assert!(is_sas2008_product(0x2213));
}

#[test]
fn fit_fails_closed_on_unreadable_inputs() {
    let mut v = FwValidation {
        checks: vec![],
        header: None,
        layout: None,
    };
    check_fit(&mut v, &[0u8; 64], &[0u8; 64]);
    assert!(!v.checks.last().unwrap().pass);
}
