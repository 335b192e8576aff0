use saga::bell::{delete_bell, ringing_bells, save_bell, toggle_bell, Bell};

fn bell(id: &str, interval: i32, start: i32, end: i32, active: bool) -> Bell {
    Bell {
        id: id.to_string(),
        name: format!("bell {id}"),
        note: String::new(),
        interval_minutes: interval,
        start_hour: start,
        end_hour: end,
        is_active: active,
    }
}

#[test]
fn a_bell_rings_on_its_interval_within_its_hours() {
    let b = bell("a", 15, 9, 17, true);
    assert!(b.rings_at(9, 0));
    assert!(b.rings_at(16, 45));
    assert!(!b.rings_at(16, 50));
    assert!(!b.rings_at(17, 0));
    assert!(!b.rings_at(8, 45));
    assert!(!bell("a", 15, 9, 17, false).rings_at(9, 0));
}

#[test]
fn an_interval_of_zero_rings_every_minute() {
    let b = bell("a", 0, 0, 24, true);
    assert!(b.rings_at(3, 7));
}

#[test]
fn negative_hours_read_as_large_numbers() {
    let b = bell("a", 1, -1, 24, true);
    assert!(!b.rings_at(10, 0));
}

#[test]
fn ringing_bells_lists_positions_in_order() {
    let bells = vec![bell("a", 30, 0, 24, true), bell("b", 7, 0, 24, true), bell("c", 10, 0, 24, true)];
    assert_eq!(ringing_bells(&bells, 12, 30), vec![0, 2]);
    assert_eq!(ringing_bells(&bells, 12, 14), vec![1]);
}

#[test]
fn save_adds_or_edits_bells() {
    let mut bells = vec![bell("a", 30, 0, 24, false)];
    save_bell(&mut bells, "", "new".to_string(), "n".to_string(), 5, 8, 20);
    assert_eq!(bells.len(), 2);
    assert_eq!(bells[1].name, "new");
    assert!(bells[1].is_active);
    assert_eq!(bells[1].id.len(), 36);

    save_bell(&mut bells, "a", "renamed".to_string(), "x".to_string(), 10, 1, 2);
    assert_eq!(bells[0].name, "renamed");
    assert_eq!(bells[0].interval_minutes, 10);
    assert!(!bells[0].is_active);

    save_bell(&mut bells, "missing", "z".to_string(), String::new(), 1, 1, 1);
    assert_eq!(bells.len(), 2);
}

#[test]
fn toggle_and_delete_by_id() {
    let mut bells = vec![bell("a", 30, 0, 24, false), bell("b", 30, 0, 24, false), bell("a", 5, 0, 24, false)];
    toggle_bell(&mut bells, "a", true);
    assert!(bells[0].is_active);
    assert!(!bells[2].is_active);
    delete_bell(&mut bells, "a");
    assert_eq!(bells.len(), 1);
    assert_eq!(bells[0].id, "b");
}
