use saga::calendar::{Date, LocalDateTime, Time};
use saga::ids::Id;
use saga::model::{EchoContent, PlainData, PlannedExercise};
use saga::model::Echo;
use saga::storage::{
    date_text_of, echo_columns, echo_from_columns, is_writable_moment, moment_from_parts, pending_versions, flag_from_column, flag_to_column, id_text, moment_text_of,
    parse_date, parse_id, parse_moment, rating_from_column, rating_to_column, template_from_columns,
    Column,
};

const SOME_ID: &str = "67e55044-10b1-426f-9247-bb680e5fe0c8";

fn now() -> LocalDateTime {
    LocalDateTime::now()
}

fn content() -> Option<EchoContent> {
    Some(EchoContent::PlainEcho(PlainData { markdown: "hi".to_string() }))
}

#[test]
fn ratings_and_flags_round_trip() {
    assert_eq!(rating_to_column(Some(7)), Some(7));
    assert_eq!(rating_from_column(Some(7)), Some(7));
    assert_eq!(rating_from_column(Some(300)), Some(44));
    assert_eq!(rating_from_column(Some(-1)), Some(255));
    assert_eq!(rating_from_column(None), None);
    assert_eq!(flag_to_column(true), 1);
    assert_eq!(flag_to_column(false), 0);
    assert!(flag_from_column(5));
    assert!(!flag_from_column(0));
}

#[test]
fn ids_are_written_hyphenated_and_read_back() {
    let id = Id(0x67e5504410b1426f9247bb680e5fe0c8);
    assert_eq!(id_text(id), SOME_ID);
    assert_eq!(parse_id(SOME_ID), Some(id));
    assert_eq!(parse_id("not-a-uuid"), None);
    let fresh = Id::new_v4();
    assert_eq!(parse_id(&id_text(fresh)), Some(fresh));
}

#[test]
fn dates_are_written_iso_and_read_back() {
    let day = Date::from_ymd_opt(2026, 2, 3).unwrap();
    assert_eq!(date_text_of(day), "2026-02-03");
    assert_eq!(parse_date("2026-02-03"), Some(day));
    assert_eq!(parse_date("2026-02-30"), None);
}

#[test]
fn moments_are_written_rfc3339() {
    let t = LocalDateTime {
        date: Date::from_ymd_opt(2026, 2, 3).unwrap(),
        time: Time::from_hms_opt(4, 5, 6).unwrap(),
        offset_secs: 3600,
    };
    assert_eq!(moment_text_of(t), "2026-02-03T04:05:06+01:00");
    let back = parse_moment("2026-02-03T04:05:06+01:00").unwrap();
    assert!(back.is_same_moment(&t));
    assert!(parse_moment("yesterday").is_none());
}

#[test]
fn echo_row_reads_back() {
    let created = now();
    let echo = echo_from_columns(
        SOME_ID,
        "2026-06-01",
        Some(SOME_ID.to_string()),
        "Title".to_string(),
        content(),
        Some(4),
        None,
        1,
        Some(vec!["rust".to_string()]),
        Some(SOME_ID.to_string()),
        Some(created),
        Some(created),
    )
    .unwrap();
    assert_eq!(id_text(echo.id), SOME_ID);
    assert_eq!(echo.day, Date::from_ymd_opt(2026, 6, 1).unwrap());
    assert_eq!(echo.section_id, parse_id(SOME_ID));
    assert_eq!(echo.title, "Title");
    assert_eq!(echo.mood, Some(4));
    assert_eq!(echo.energy, None);
    assert!(echo.pinned);
    assert_eq!(echo.tags, vec!["rust".to_string()]);
    assert_eq!(echo.linked_echo_id, parse_id(SOME_ID));
    assert_eq!(echo.created_at, created);
}

#[test]
fn echo_row_reports_the_first_bad_column() {
    let t = Some(now());
    let tags = || Some(Vec::new());
    let row = |id: &str, day: &str, c: Option<EchoContent>, linked: Option<String>| {
        echo_from_columns(id, day, None, String::new(), c, None, None, 0, tags(), linked, t, t)
    };
    assert_eq!(row("x", "bad", None, None).unwrap_err(), Column::Id);
    assert_eq!(row(SOME_ID, "bad", None, None).unwrap_err(), Column::Day);
    assert_eq!(row(SOME_ID, "2026-06-01", None, None).unwrap_err(), Column::Content);
    assert_eq!(
        row(SOME_ID, "2026-06-01", content(), Some("nope".to_string())).unwrap_err(),
        Column::LinkedEchoId
    );
    let no_created =
        echo_from_columns(SOME_ID, "2026-06-01", None, String::new(), content(), None, None, 0, tags(), None, None, t);
    assert_eq!(no_created.unwrap_err(), Column::CreatedAt);
    let no_tags =
        echo_from_columns(SOME_ID, "2026-06-01", None, String::new(), content(), None, None, 0, None, None, t, t);
    assert_eq!(no_tags.unwrap_err(), Column::Tags);
    let bad_section = echo_from_columns(
        SOME_ID,
        "2026-06-01",
        Some("nope".to_string()),
        String::new(),
        None,
        None,
        None,
        0,
        None,
        None,
        None,
        None,
    );
    assert_eq!(bad_section.unwrap_err(), Column::SectionId);
}

#[test]
fn template_row_reads_back_or_names_the_bad_column() {
    let t = template_from_columns(
        SOME_ID,
        "Push".to_string(),
        None,
        2,
        Some(vec![PlannedExercise::new("Bench".to_string())]),
    )
    .unwrap();
    assert_eq!(t.name, "Push");
    assert_eq!(t.sort_order, 2);
    assert!(t.program_id.is_none());
    assert_eq!(t.exercises[0].name, "Bench");

    let bad_program = template_from_columns(SOME_ID, "Push".to_string(), Some("?".to_string()), 0, Some(vec![]));
    assert_eq!(bad_program.unwrap_err(), Column::ProgramId);
    let bad_json = template_from_columns(SOME_ID, "Push".to_string(), Some("?".to_string()), 0, None);
    assert_eq!(bad_json.unwrap_err(), Column::Exercises);
    let bad_id = template_from_columns("?", "Push".to_string(), None, 0, None);
    assert_eq!(bad_id.unwrap_err(), Column::Id);
}

#[test]
fn a_stored_echo_reads_back() {
    let mut echo = Echo::new(
        Date::from_ymd_opt(2026, 6, 1).unwrap(),
        "Tagged Echo".to_string(),
        EchoContent::PlainEcho(PlainData { markdown: "With metadata".to_string() }),
    );
    echo.mood = Some(9);
    echo.pinned = true;
    echo.tags = vec!["rust".to_string(), "learning".to_string()];
    echo.linked_echo_id = Some(Id::new_v4());
    echo.section_id = Some(Id::new_v4());
    assert!(is_writable_moment(&echo.created_at));
    let row = echo_columns(&echo);
    assert_eq!(row.content_type, "Echo");
    assert_eq!(row.day, "2026-06-01");
    assert_eq!(row.pinned, 1);
    let back = echo_from_columns(
        &row.id,
        &row.day,
        row.section_id.clone(),
        row.title.clone(),
        Some(echo.content.clone()),
        row.mood,
        row.energy,
        row.pinned,
        Some(echo.tags.clone()),
        row.linked_echo_id.clone(),
        parse_moment(&row.created_at),
        parse_moment(&row.updated_at),
    )
    .unwrap();
    assert_eq!(back.id, echo.id);
    assert_eq!(back.day, echo.day);
    assert_eq!(back.title, echo.title);
    assert_eq!(back.mood, Some(9));
    assert!(back.pinned);
    assert_eq!(back.tags, echo.tags);
    assert_eq!(back.linked_echo_id, echo.linked_echo_id);
    assert_eq!(back.section_id, echo.section_id);
    assert!(back.created_at.is_same_moment(&echo.created_at));
}

#[test]
fn pending_versions_are_those_above_the_current() {
    assert_eq!(pending_versions(0, 3), vec![1, 2, 3]);
    assert_eq!(pending_versions(2, 3), vec![3]);
    assert_eq!(pending_versions(3, 3), Vec::<i32>::new());
    assert_eq!(pending_versions(9, 3), Vec::<i32>::new());
    assert_eq!(pending_versions(-4, 2), vec![1, 2]);
}

#[test]
fn moments_are_made_from_fitting_parts_only() {
    let t = moment_from_parts(Some((2026, 2, 3, 3723, 5, 3600))).unwrap();
    assert_eq!(t.date, Date::from_ymd_opt(2026, 2, 3).unwrap());
    assert_eq!(t.time.hour(), 1);
    assert_eq!(t.time.nanosecond(), 5);
    assert_eq!(t.offset_secs, 3600);
    assert!(moment_from_parts(None).is_none());
    assert!(moment_from_parts(Some((2026, 2, 30, 0, 0, 0))).is_none());
    assert!(moment_from_parts(Some((2026, 2, 3, 3600, 1_500_000_000, 0))).is_none());
    assert!(moment_from_parts(Some((2026, 2, 3, 3659, 1_500_000_000, 0))).is_some());
    assert!(moment_from_parts(Some((2026, 2, 3, 0, 0, 86400))).is_none());
}

#[test]
fn writable_moments_are_those_chrono_can_write() {
    let day = Date::from_ymd_opt(2026, 2, 3).unwrap();
    let time = Time::from_hms_opt(1, 2, 3).unwrap();
    assert!(is_writable_moment(&LocalDateTime { date: day, time, offset_secs: 3600 }));
    assert!(!is_writable_moment(&LocalDateTime { date: day, time, offset_secs: 86400 }));
    let last = Date::from_ymd_opt(262142, 12, 31).unwrap();
    assert!(is_writable_moment(&LocalDateTime { date: last, time, offset_secs: 0 }));
    assert!(!is_writable_moment(&LocalDateTime { date: last, time, offset_secs: -82800 }));
    let first = Date::from_ymd_opt(-262143, 1, 1).unwrap();
    assert!(is_writable_moment(&LocalDateTime { date: first, time, offset_secs: 0 }));
    assert!(!is_writable_moment(&LocalDateTime { date: first, time, offset_secs: 7200 }));
    let t = LocalDateTime { date: last, time, offset_secs: 3600 };
    assert_eq!(moment_text_of(t), "+262142-12-31T01:02:03+01:00");
}
