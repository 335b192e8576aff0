use chrono::Datelike;
use saga::calendar::{Date, LocalDateTime, Time};
use saga::ids::Id;
use saga::model::{find_section_by_name, next_sort_order, Echo, EchoContent, MeditationData, PlainData, Section};

#[test]
fn dates_check_their_parts() {
    assert!(Date::from_ymd_opt(2024, 2, 29).is_some());
    assert!(Date::from_ymd_opt(2023, 2, 29).is_none());
    assert!(Date::from_ymd_opt(1900, 2, 29).is_none());
    assert!(Date::from_ymd_opt(2000, 2, 29).is_some());
    assert!(Date::from_ymd_opt(2026, 13, 1).is_none());
    assert!(Date::from_ymd_opt(2026, 4, 31).is_none());
}

#[test]
fn day_numbers_match_chrono() {
    for (y, m, d) in [(1, 1, 1), (2026, 6, 1), (-44, 3, 15), (1970, 1, 1)] {
        let ours = Date::from_ymd_opt(y, m, d).unwrap().num_days_from_ce();
        let theirs = chrono::NaiveDate::from_ymd_opt(y, m, d).unwrap().num_days_from_ce();
        assert_eq!(ours, theirs as i64);
    }
}

#[test]
fn adding_days_and_months() {
    let d = Date::from_ymd_opt(2026, 12, 31).unwrap();
    assert_eq!(d.checked_add_days(1), Date::from_ymd_opt(2027, 1, 1));
    assert_eq!(d.checked_add_months(2), Date::from_ymd_opt(2027, 2, 28));
    assert!(d.is_before(&Date::from_ymd_opt(2027, 1, 1).unwrap()));
}

#[test]
fn times_and_moments() {
    assert!(Time::from_hms_opt(24, 0, 0).is_none());
    let t = Time::from_hms_opt(23, 59, 59).unwrap();
    assert_eq!(t.num_seconds_from_midnight(), 86399);
    let a = LocalDateTime { date: Date::from_ymd_opt(2026, 1, 1).unwrap(), time: t, offset_secs: 3600 };
    let b = LocalDateTime { date: Date::from_ymd_opt(2026, 1, 1).unwrap(), time: t, offset_secs: 0 };
    assert!(a.is_before(&b));
    assert!(!b.is_before(&a));
    assert!(a.is_same_moment(&a));
}

#[test]
fn fresh_ids_differ() {
    assert_ne!(Id::new_v4(), Id::new_v4());
}

#[test]
fn next_sort_order_follows_the_largest() {
    assert_eq!(next_sort_order(&[]), 0);
    let sections = vec![Section::new("a".to_string(), 4), Section::new("b".to_string(), 2)];
    assert_eq!(next_sort_order(&sections), 5);
}

#[test]
fn renaming_a_section_keeps_its_id() {
    let mut s = Section::new("Old".to_string(), 1);
    let id = s.id;
    s.rename("New".to_string());
    assert_eq!(s.name, "New");
    assert_eq!(s.id, id);
}

#[test]
fn sections_are_found_by_name_ignoring_ascii_case() {
    let sections = vec![
        Section::new("Work".to_string(), 0),
        Section::new("Café".to_string(), 1),
        Section::new("WORK".to_string(), 2),
    ];
    assert_eq!(find_section_by_name(&sections, "work"), Some(0));
    assert_eq!(find_section_by_name(&sections, "CAFé"), Some(1));
    assert_eq!(find_section_by_name(&sections, "CAFÉ"), None);
    assert_eq!(find_section_by_name(&sections, "home"), None);
}

#[test]
fn previews_show_the_text_of_each_kind() {
    let day = Date::from_ymd_opt(2026, 6, 1).unwrap();
    let note = Echo::new(day, "T".to_string(), EchoContent::PlainEcho(PlainData { markdown: "body".to_string() }));
    assert_eq!(note.preview(), "body");
    let task = Echo::new_task(day, "Call".to_string());
    assert_eq!(task.preview(), "Call");
    let sit = Echo::new(day, "S".to_string(), EchoContent::MeditationEcho(MeditationData::new(5)));
    assert_eq!(sit.preview(), "(no notes)");
    let lift = Echo::new_workout(day, "W".to_string());
    assert_eq!(lift.preview(), "(no notes)");
}
