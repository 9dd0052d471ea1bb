use lsi_flash::card_database::{
    identify_card, load_with_fallback, parse_database, CardDatabaseError, CardEntry, CardInfo,
    ChipFamily, Personality, Quirk, UserDatabase,
};

fn entry(
    slug: &str,
    ids: (u16, u16, u16, u16),
    personality: Personality,
    quirks: &[&str],
) -> (String, CardEntry) {
    let e = CardEntry {
        display: slug.to_string(),
        vid: ids.0,
        did: ids.1,
        subsys_vid: ids.2,
        subsys_pid: ids.3,
        chip_family: ChipFamily::Sas2008,
        default_personality: personality,
        sas_oui: 0,
        interface_byte: 0,
        factory_firmware: None,
        compatible_firmware: Vec::new(),
        quirks: quirks.iter().map(|q| q.to_string()).collect(),
        form_factor: None,
        confirmed_via: None,
        notes: None,
    };
    (slug.to_string(), e)
}

fn load_embedded() -> Result<Vec<CardInfo>, CardDatabaseError> {
    let it = Personality::IT;
    let imr = Personality::IMR;
    parse_database(Ok(vec![
        entry("lsi-9211-8i", (0x1000, 0x0072, 0x1000, 0x3020), it, &[]),
        entry(
            "dell-6gbps-sas-hba-adapter",
            (0x1000, 0x0072, 0x1028, 0x1f1c),
            it,
            &[],
        ),
        entry(
            "dell-h200-adapter",
            (0x1000, 0x0072, 0x1028, 0x1f1d),
            Personality::IR,
            &["dell-tamper-check"],
        ),
        entry(
            "dell-h200-integrated",
            (0x1000, 0x0072, 0x1028, 0x1f1e),
            Personality::IR,
            &["dell-tamper-check"],
        ),
        entry(
            "dell-h200-modular",
            (0x1000, 0x0072, 0x1028, 0x1f1f),
            Personality::IR,
            &["dell-tamper-check"],
        ),
        entry(
            "dell-h310-mini-monolithics",
            (0x1000, 0x0073, 0x1028, 0x1f51),
            imr,
            &["imr-composite", "dell-h310-mini-mono-idrac-lock"],
        ),
        entry(
            "dell-h310-full-size",
            (0x1000, 0x0073, 0x1028, 0x1f78),
            imr,
            &["imr-composite"],
        ),
        entry("ibm-m1015", (0x1000, 0x0073, 0x1014, 0x03b1), imr, &[]),
        entry(
            "fujitsu-d2607",
            (0x1000, 0x0072, 0x1734, 0x1177),
            it,
            &["fujitsu-a21-wiring"],
        ),
    ]))
}

#[test]
fn embedded_database_parses() {
    let cards = load_embedded().expect("embedded card-database.toml must parse");
    assert!(
        !cards.is_empty(),
        "embedded database must have at least one card"
    );
}

#[test]
fn embedded_contains_lsi_9211() {
    let cards = load_embedded().unwrap();
    let lsi = identify_card(&cards, 0x1000, 0x0072, 0x1000, 0x3020)
        .expect("LSI 9211-8i must be in the embedded database");
    assert_eq!(lsi.slug, "lsi-9211-8i");
    assert!(matches!(lsi.chip_family, ChipFamily::Sas2008));
    assert!(matches!(lsi.default_personality, Personality::IT));
}

#[test]
fn embedded_contains_dell_h200_variants() {
    let cards = load_embedded().unwrap();

    let six_gbps = identify_card(&cards, 0x1000, 0x0072, 0x1028, 0x1f1c)
        .expect("Dell 6Gbps SAS HBA Adapter must be in the embedded database");
    assert_eq!(six_gbps.slug, "dell-6gbps-sas-hba-adapter");

    let adapter = identify_card(&cards, 0x1000, 0x0072, 0x1028, 0x1f1d)
        .expect("Dell H200 Adapter must be in the embedded database");
    assert_eq!(adapter.slug, "dell-h200-adapter");
    assert!(adapter.quirks.contains(&Quirk::DellTamperCheck));

    let integrated = identify_card(&cards, 0x1000, 0x0072, 0x1028, 0x1f1e)
        .expect("Dell H200 Integrated must be in the embedded database");
    assert_eq!(integrated.slug, "dell-h200-integrated");

    let modular = identify_card(&cards, 0x1000, 0x0072, 0x1028, 0x1f1f)
        .expect("Dell H200 Modular must be in the embedded database");
    assert_eq!(modular.slug, "dell-h200-modular");
}

#[test]
fn embedded_contains_dell_h310_family() {
    let cards = load_embedded().unwrap();
    let mini_mono = identify_card(&cards, 0x1000, 0x0073, 0x1028, 0x1f51)
        .expect("Dell H310 Mini Monolithics must be in the embedded database");
    assert_eq!(mini_mono.slug, "dell-h310-mini-monolithics");
    assert!(matches!(mini_mono.default_personality, Personality::IMR));

    let full_size = identify_card(&cards, 0x1000, 0x0073, 0x1028, 0x1f78)
        .expect("Dell H310 full-size must be in the embedded database");
    assert_eq!(full_size.slug, "dell-h310-full-size");
}

#[test]
fn embedded_contains_ibm_m1015() {
    let cards = load_embedded().unwrap();
    let ibm = identify_card(&cards, 0x1000, 0x0073, 0x1014, 0x03b1)
        .expect("IBM M1015 must be in the embedded database (IMR personality)");
    assert_eq!(ibm.slug, "ibm-m1015");
    assert!(matches!(ibm.default_personality, Personality::IMR));
}

#[test]
fn embedded_contains_fujitsu_d2607() {
    let cards = load_embedded().unwrap();
    let fuj = identify_card(&cards, 0x1000, 0x0072, 0x1734, 0x1177)
        .expect("Fujitsu D2607 must be in the embedded database");
    assert_eq!(fuj.slug, "fujitsu-d2607");
    assert!(fuj.quirks.contains(&Quirk::FujitsuA21Wiring));
}

#[test]
fn identify_unknown_card_returns_none() {
    let cards = load_embedded().unwrap();
    assert!(identify_card(&cards, 0x1234, 0x5678, 0xabcd, 0xef01).is_none());
}

#[test]
fn load_with_fallback_no_override_returns_embedded() {
    let own = "text".to_string();
    assert_eq!(
        load_with_fallback(UserDatabase::Absent, own.clone()).unwrap(),
        own
    );
    assert_eq!(
        load_with_fallback(UserDatabase::Text("other".to_string()), own.clone()).unwrap(),
        "other"
    );
    let e = load_with_fallback(UserDatabase::Unreadable("denied".to_string()), own).unwrap_err();
    assert_eq!(e.text(), "IO error: denied");
}

#[test]
fn the_database_is_in_the_order_of_its_keys() {
    let cards = load_embedded().unwrap();
    let keys: Vec<&str> = cards.iter().map(|c| c.slug.as_str()).collect();
    let mut sorted = keys.clone();
    sorted.sort();
    assert_eq!(keys, sorted);
    assert_eq!(keys.len(), 9);
}

#[test]
fn a_malformed_database_is_an_error() {
    let e = parse_database(Err("line 3".to_string())).unwrap_err();
    assert_eq!(e.text(), "Parse TOML error: line 3");
}

#[test]
fn keys_that_are_not_known_are_kept() {
    assert_eq!(Quirk::from_key("imr-composite"), Quirk::ImrComposite);
    assert_eq!(Quirk::from_key("new"), Quirk::Unknown("new".to_string()));
}
