use saga::calendar::{Date, LocalDateTime};
use saga::model::meditation::mood_totals_fit_in;
use saga::model::{mood_delta_totals, total_meditation_minutes, Echo, EchoContent, MeditationData, PlainData};

fn today() -> Date {
    LocalDateTime::now().date_naive()
}

/// The average change of mood, as the journal's statistics compute it from
/// the totals.
fn average_mood_delta(echoes: &[Echo]) -> Option<f32> {
    let (sum, count) = mood_delta_totals(echoes);
    if count == 0 {
        None
    } else {
        Some(sum as f32 / count as f32)
    }
}

fn check_meditation_echo() {
    let echo = Echo::new(
        today(),
        "Morning Sit".to_string(),
        EchoContent::MeditationEcho(MeditationData {
            markdown: Some("Felt calm.".to_string()),
            duration_minutes: 20,
            mood_before: Some(5),
            mood_after: Some(8),
        }),
    );

    assert_eq!(echo.content_type_name(), "Meditation Echo");
    assert_eq!(echo.char_count(), 10);
    println!("{}", echo.describe());
}

#[test]
fn meditation_test_meditation_echo() {
    check_meditation_echo();
}

#[test]
fn model_test_meditation_echo() {
    check_meditation_echo();
}

#[test]
fn test_meditation_new_defaults() {
    let meditation = MeditationData::new(20);
    assert_eq!(meditation.duration_minutes, 20);
    assert!(meditation.markdown.is_none());
    assert!(meditation.mood_before.is_none());
    assert!(meditation.mood_after.is_none());
    assert!(meditation.mood_delta().is_none());
}

#[test]
fn test_meditation_mood_delta() {
    let mut meditation = MeditationData::new(15);

    meditation.mood_before = Some(4);
    meditation.mood_after = Some(8);
    assert_eq!(meditation.mood_delta(), Some(4));

    meditation.mood_before = Some(8);
    meditation.mood_after = Some(3);
    assert_eq!(meditation.mood_delta(), Some(-5));

    meditation.mood_after = None;
    assert_eq!(meditation.mood_delta(), None);
}

#[test]
fn test_new_meditation_echo() {
    let echo = Echo::new_meditation(
        Date::from_ymd_opt(2026, 6, 4).unwrap(),
        "Evening Sit".to_string(),
        30,
    );
    assert_eq!(echo.content_type_name(), "Meditation Echo");

    let meditation = echo.as_meditation().unwrap();
    assert_eq!(meditation.duration_minutes, 30);
    assert!(meditation.mood_before.is_none());
}

#[test]
fn test_as_meditation_on_non_meditation() {
    let echo = Echo::new(
        today(),
        "Plain".to_string(),
        EchoContent::PlainEcho(PlainData { markdown: "hi".to_string() }),
    );
    assert!(echo.as_meditation().is_none());
}

#[test]
fn test_meditation_query_helpers() {
    let day = Date::from_ymd_opt(2026, 6, 1).unwrap();

    let mut m1 = Echo::new_meditation(day, "Morning".to_string(), 20);
    {
        let data = m1.as_meditation_mut().unwrap();
        data.mood_before = Some(4);
        data.mood_after = Some(8);
    }

    let mut m2 = Echo::new_meditation(day, "Noon".to_string(), 10);
    {
        let data = m2.as_meditation_mut().unwrap();
        data.mood_before = Some(6);
        data.mood_after = Some(4);
    }

    let m3 = Echo::new_meditation(day, "No moods".to_string(), 15);

    let plain = Echo::new(
        day,
        "Note".to_string(),
        EchoContent::PlainEcho(PlainData { markdown: "x".to_string() }),
    );

    let all = vec![m1, m2, m3, plain];

    assert_eq!(total_meditation_minutes(&all), 45);
    assert_eq!(average_mood_delta(&all), Some(1.0));

    let no_moods = vec![Echo::new_meditation(day, "solo".to_string(), 5)];
    assert_eq!(average_mood_delta(&no_moods), None);
}

#[test]
fn mood_delta_totals_sum_and_count() {
    let day = Date::from_ymd_opt(2026, 6, 1).unwrap();
    let mut a = Echo::new_meditation(day, "a".to_string(), 5);
    {
        let m = a.as_meditation_mut().unwrap();
        m.mood_before = Some(2);
        m.mood_after = Some(9);
    }
    let mut b = Echo::new_meditation(day, "b".to_string(), 5);
    {
        let m = b.as_meditation_mut().unwrap();
        m.mood_before = Some(10);
        m.mood_after = Some(1);
    }
    assert_eq!(mood_delta_totals(&[a, b]), (-2, 2));
    assert_eq!(mood_delta_totals(&[]), (0, 0));
}

#[test]
fn total_minutes_of_nothing_is_zero() {
    assert_eq!(total_meditation_minutes(&[]), 0);
}

#[test]
fn mood_totals_fit_unless_a_change_overflows() {
    let day = Date::from_ymd_opt(2026, 6, 1).unwrap();
    let mut calm = Echo::new_meditation(day, "calm".to_string(), 5);
    {
        let m = calm.as_meditation_mut().unwrap();
        m.mood_before = Some(2);
        m.mood_after = Some(9);
    }
    assert!(mood_totals_fit_in(&[calm]));
    let mut wild = Echo::new_meditation(day, "wild".to_string(), 5);
    {
        let m = wild.as_meditation_mut().unwrap();
        m.mood_before = Some(200);
        m.mood_after = Some(100);
    }
    assert!(!mood_totals_fit_in(&[wild]));
    assert!(mood_totals_fit_in(&[]));
}
