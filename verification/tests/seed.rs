use saga::calendar::{Date, LocalDateTime};
use saga::ids::Id;
use saga::model::seed::{Seed, SeedKind};

#[test]
fn test_seed_kind_roundtrip_string() {
    assert_eq!(SeedKind::Being.as_str(), "being");
    assert_eq!(SeedKind::Doing.as_str(), "doing");
    assert_eq!("being".parse::<SeedKind>().unwrap(), SeedKind::Being);
    assert_eq!("doing".parse::<SeedKind>().unwrap(), SeedKind::Doing);
    assert!("sprouting".parse::<SeedKind>().is_err());
}

#[test]
fn test_new_seed_defaults() {
    let day = LocalDateTime::now().date_naive();
    let seed = Seed::new("Be more attentive".to_string(), SeedKind::Being, day, None);
    assert_eq!(seed.kind, SeedKind::Being);
    assert!(!seed.archived);
    assert!(seed.until.is_none());
    assert_eq!(seed.created_at, seed.updated_at);
}

#[test]
fn seed_kind_parse_reports_the_rejected_text() {
    let err = SeedKind::parse("Being").unwrap_err();
    assert_eq!(err.text(), "Being");
    assert_eq!(err.describe(), "invalid seed kind: Being");
}

#[test]
fn seed_kind_word_reads_back() {
    for kind in [SeedKind::Being, SeedKind::Doing] {
        assert_eq!(SeedKind::parse(kind.as_str()).unwrap(), kind);
    }
}

#[test]
fn new_seed_at_uses_the_given_id_and_moment() {
    let now = LocalDateTime::now();
    let day = Date::from_ymd_opt(2026, 6, 1).unwrap();
    let seed = Seed::new_at("Walk".to_string(), SeedKind::Doing, day, None, Id(7), now);
    assert_eq!(seed.id, Id(7));
    assert_eq!(seed.created_at, now);
    assert_eq!(seed.updated_at, now);
    assert_eq!(seed.planted_on, day);
}
