use chrono::Datelike;
use saga::calendar::{Date, LocalDateTime, Time};
use saga::model::{
    open_tasks, overdue_tasks, tasks_by_priority, ChecklistItem, Echo, EchoContent, PlainData,
    Priority, Recurrence, TaskData,
};

fn today() -> Date {
    LocalDateTime::now().date_naive()
}

fn ymd(y: i32, m: u32, d: u32) -> Date {
    Date::from_ymd_opt(y, m, d).unwrap()
}

/// `day` moved by `delta` days, as chrono counts them.
fn shifted(day: Date, delta: i64) -> Date {
    let naive = chrono::NaiveDate::from_ymd_opt(day.year(), day.month(), day.day()).unwrap();
    let moved = if delta >= 0 {
        naive + chrono::Days::new(delta as u64)
    } else {
        naive - chrono::Days::new((-delta) as u64)
    };
    ymd(moved.year(), moved.month(), moved.day())
}

fn check_task_echo() {
    let echo = Echo::new(
        today(),
        "Buy groceries".to_string(),
        EchoContent::TaskEcho(TaskData {
            description: None,
            due_date: None,
            due_time: None,
            completed: false,
            completed_at: None,
            priority: Priority::Medium,
            checklist: vec![
                ChecklistItem { text: "Milk".to_string(), done: false },
                ChecklistItem { text: "Eggs".to_string(), done: true },
            ],
            estimated_minutes: Some(30),
            recurrence: None,
        }),
    );

    assert_eq!(echo.content_type_name(), "Task Echo");
    println!("{}", echo.describe());
}

fn check_task_new_defaults() {
    let task = TaskData::new();
    assert!(!task.completed);
    assert!(task.completed_at.is_none());
    assert!(task.checklist.is_empty());
    assert!(!task.is_list());
    assert_eq!(task.priority, Priority::Medium);
}

fn check_complete_uncomplete() {
    let mut task = TaskData::new();
    task.complete();
    assert!(task.is_complete());
    assert!(task.completed_at.is_some());

    task.uncomplete();
    assert!(!task.is_complete());
    assert!(task.completed_at.is_none());
}

fn check_priority_ordering() {
    assert!(Priority::Low < Priority::Medium);
    assert!(Priority::Medium < Priority::High);
    assert!(Priority::High < Priority::Critical);

    let mut prios = vec![Priority::High, Priority::Low, Priority::Critical, Priority::Medium];
    prios.sort();
    assert_eq!(prios, vec![Priority::Low, Priority::Medium, Priority::High, Priority::Critical]);
}

fn check_due_and_overdue() {
    let now = LocalDateTime::now();
    let today = now.date_naive();

    let mut task = TaskData::new();
    assert!(!task.is_overdue(now));

    task.set_due(Some(shifted(today, -1)), None);
    assert!(task.is_overdue(now));

    task.set_due(Some(today), None);
    assert!(!task.is_overdue(now));

    task.set_due(Some(shifted(today, 1)), None);
    assert!(!task.is_overdue(now));

    task.set_due(Some(shifted(today, -5)), None);
    task.complete();
    assert!(!task.is_overdue(now));
}

fn check_due_datetime_combines() {
    let mut task = TaskData::new();
    task.set_due(Some(ymd(2026, 6, 1)), Some(Time::from_hms_opt(9, 30, 0).unwrap()));
    let dt = task.due_datetime().expect("should combine into a datetime");
    assert_eq!(dt.date_naive(), ymd(2026, 6, 1));
}

fn check_recurrence_next_due() {
    let mut task = TaskData::new();
    task.set_due(Some(ymd(2026, 1, 31)), None);

    task.recurrence = Some(Recurrence::Daily);
    assert_eq!(task.next_due_date(), Some(ymd(2026, 2, 1)));

    task.recurrence = Some(Recurrence::Weekly);
    assert_eq!(task.next_due_date(), Some(ymd(2026, 2, 7)));

    task.recurrence = Some(Recurrence::Monthly);
    assert_eq!(task.next_due_date(), Some(ymd(2026, 2, 28)));
}

fn check_next_due_requires_due_and_recurrence() {
    let mut task = TaskData::new();
    task.recurrence = Some(Recurrence::Daily);
    assert_eq!(task.next_due_date(), None);

    let mut task2 = TaskData::new();
    task2.set_due(Some(ymd(2026, 1, 1)), None);
    assert_eq!(task2.next_due_date(), None);
}

fn check_as_task_on_non_task() {
    let echo = Echo::new(
        today(),
        "Plain".to_string(),
        EchoContent::PlainEcho(PlainData { markdown: "hi".to_string() }),
    );
    assert!(echo.as_task().is_none());
}

fn check_task_query_helpers() {
    let day = ymd(2026, 6, 1);

    let mut low_open = Echo::new_task(day, "Low open".to_string());
    low_open.as_task_mut().unwrap().set_priority(Priority::Low);

    let mut critical_open = Echo::new_task(day, "Critical open".to_string());
    critical_open.as_task_mut().unwrap().set_priority(Priority::Critical);

    let mut done = Echo::new_task(day, "Done".to_string());
    done.as_task_mut().unwrap().complete();

    let mut overdue = Echo::new_task(day, "Overdue".to_string());
    overdue.as_task_mut().unwrap().set_due(Some(ymd(2020, 1, 1)), None);

    let plain = Echo::new(
        day,
        "Note".to_string(),
        EchoContent::PlainEcho(PlainData { markdown: "x".to_string() }),
    );

    let all = vec![low_open, critical_open, done, overdue, plain];

    let open = open_tasks(&all);
    assert_eq!(open.len(), 3);

    let now = LocalDateTime::now();
    let late = overdue_tasks(&all, now);
    assert_eq!(late.len(), 1);
    assert_eq!(late[0].title, "Overdue");

    let ranked = tasks_by_priority(&all);
    assert_eq!(ranked.len(), 4);
    assert_eq!(ranked[0].title, "Critical open");
}

#[test]
fn task_test_task_echo() {
    check_task_echo();
}

#[test]
fn model_test_task_echo() {
    check_task_echo();
}

#[test]
fn task_test_task_new_defaults() {
    check_task_new_defaults();
}

#[test]
fn model_test_task_new_defaults() {
    check_task_new_defaults();
}

#[test]
fn task_test_complete_uncomplete() {
    check_complete_uncomplete();
}

#[test]
fn model_test_complete_uncomplete() {
    check_complete_uncomplete();
}

#[test]
fn test_checklist_independent_of_completion() {
    let mut task = TaskData::new();
    task.add_item("Milk".to_string());
    task.add_item("Eggs".to_string());

    assert!(task.is_list());
    assert_eq!(task.progress(), (0, 2));
    assert!(!task.completed);

    // checking every item must NOT auto-complete the task
    task.toggle_item(0);
    task.toggle_item(1);
    assert_eq!(task.progress(), (2, 2));
    assert!(!task.completed);

    // completion is manual and stays put when items change
    task.complete();
    assert!(task.completed);
    task.toggle_item(0);
    assert_eq!(task.progress(), (1, 2));
    assert!(task.completed, "unchecking an item must not reopen the task");
}

#[test]
fn test_manual_complete_uncomplete() {
    let mut task = TaskData::new();
    assert!(!task.completed);

    task.complete();
    assert!(task.completed);
    assert!(task.completed_at.is_some());

    task.uncomplete();
    assert!(!task.completed);
    assert!(task.completed_at.is_none());
}

#[test]
fn test_complete_with_partial_checklist() {
    let mut task = TaskData::new();
    task.add_item("A".to_string());
    task.add_item("B".to_string());
    task.set_item_done(0, true);

    task.complete();
    assert!(task.completed);
    assert_eq!(task.progress(), (1, 2));

    task.remove_item(1);
    assert!(task.completed);
    assert_eq!(task.progress(), (1, 1));
}

#[test]
fn test_empty_checklist_not_autocompleted() {
    let mut task = TaskData::new();
    assert!(!task.completed);

    task.complete();
    assert!(task.completed);
}

#[test]
fn task_test_priority_ordering() {
    check_priority_ordering();
}

#[test]
fn model_test_priority_ordering() {
    check_priority_ordering();
}

#[test]
fn task_test_due_and_overdue() {
    check_due_and_overdue();
}

#[test]
fn model_test_due_and_overdue() {
    check_due_and_overdue();
}

#[test]
fn task_test_due_datetime_combines() {
    check_due_datetime_combines();
}

#[test]
fn model_test_due_datetime_combines() {
    check_due_datetime_combines();
}

#[test]
fn task_test_recurrence_next_due() {
    check_recurrence_next_due();
}

#[test]
fn model_test_recurrence_next_due() {
    check_recurrence_next_due();
}

#[test]
fn task_test_next_due_requires_due_and_recurrence() {
    check_next_due_requires_due_and_recurrence();
}

#[test]
fn model_test_next_due_requires_due_and_recurrence() {
    check_next_due_requires_due_and_recurrence();
}

#[test]
fn task_test_spawn_next_occurrence() {
    let mut echo = Echo::new_task(ymd(2026, 1, 1), "Weekly groceries".to_string());
    {
        let task = echo.as_task_mut().unwrap();
        task.set_due(Some(ymd(2026, 1, 1)), None);
        task.recurrence = Some(Recurrence::Weekly);
        task.add_item("Milk".to_string());
        task.set_item_done(0, true);
        task.complete();
    }
    assert!(echo.as_task().unwrap().completed);

    let next = echo.spawn_next_occurrence().expect("should spawn next");
    assert_ne!(next.id, echo.id);

    let next_task = next.as_task().unwrap();
    assert_eq!(next_task.due_date, Some(ymd(2026, 1, 8)));
    assert!(!next_task.completed);
    assert!(next_task.completed_at.is_none());
    assert!(!next_task.checklist[0].done);
    assert_eq!(next.day, ymd(2026, 1, 8));
}

#[test]
fn task_test_as_task_on_non_task() {
    check_as_task_on_non_task();
}

#[test]
fn model_test_as_task_on_non_task() {
    check_as_task_on_non_task();
}

#[test]
fn task_test_task_query_helpers() {
    check_task_query_helpers();
}

#[test]
fn model_test_task_query_helpers() {
    check_task_query_helpers();
}

#[test]
fn checklist_edits_stay_in_range() {
    let mut task = TaskData::new();
    task.add_item("A".to_string());
    task.edit_item(0, "B".to_string());
    task.edit_item(7, "C".to_string());
    task.toggle_item(9);
    task.set_item_done(4, true);
    task.remove_item(3);
    assert_eq!(task.checklist.len(), 1);
    assert_eq!(task.checklist[0].text, "B");
    assert!(!task.checklist[0].done);
    assert!(!task.all_items_done());
    task.toggle_item(0);
    assert!(task.all_items_done());
    task.toggle_item(0);
    assert!(!task.checklist[0].done);
    task.clear_checklist();
    assert!(!task.is_list());
    assert_eq!(task.progress(), (0, 0));
}

#[test]
fn priority_levels_follow_the_order() {
    assert_eq!(Priority::Low.level(), 0);
    assert_eq!(Priority::Medium.level(), 1);
    assert_eq!(Priority::High.level(), 2);
    assert_eq!(Priority::Critical.level(), 3);
}

#[test]
fn due_with_time_is_overdue_after_that_moment() {
    let now = LocalDateTime::now();
    let mut task = TaskData::new();
    task.set_due(Some(ymd(2020, 1, 1)), Some(Time::from_hms_opt(8, 0, 0).unwrap()));
    assert!(task.is_overdue(now));
    task.set_due(Some(ymd(2999, 1, 1)), Some(Time::from_hms_opt(8, 0, 0).unwrap()));
    assert!(!task.is_overdue(now));
    task.clear_due();
    assert!(task.due_date.is_none() && task.due_time.is_none());
}

#[test]
fn monthly_recurrence_clamps_to_leap_february() {
    let mut task = TaskData::new();
    task.set_due(Some(ymd(2028, 1, 31)), None);
    task.recurrence = Some(Recurrence::Monthly);
    assert_eq!(task.next_due_date(), Some(ymd(2028, 2, 29)));
}

#[test]
fn spawn_needs_a_recurring_task() {
    let echo = Echo::new_task(ymd(2026, 1, 1), "Once".to_string());
    assert!(echo.spawn_next_occurrence().is_none());
}

#[test]
fn tasks_without_a_due_date_spawn_nothing() {
    let mut echo = Echo::new_task(ymd(2026, 1, 1), "Open".to_string());
    echo.as_task_mut().unwrap().recurrence = Some(Recurrence::Daily);
    assert!(echo.spawn_next_occurrence().is_none());
    assert_eq!(TaskData::new().next_due_date(), None);
}

#[test]
fn spawning_keeps_the_section() {
    let mut echo = Echo::new_task(ymd(2026, 1, 1), "Weekly".to_string());
    let section = saga::ids::Id::new_v4();
    echo.section_id = Some(section);
    {
        let task = echo.as_task_mut().unwrap();
        task.set_due(Some(ymd(2026, 1, 1)), None);
        task.recurrence = Some(Recurrence::Weekly);
    }
    let next = echo.spawn_next_occurrence().unwrap();
    assert_eq!(next.section_id, Some(section));
    assert_ne!(next.id, echo.id);
}

#[test]
fn complete_at_records_the_moment() {
    let now = LocalDateTime::now();
    let mut task = TaskData::new();
    task.complete_at(now);
    assert!(task.completed);
    assert_eq!(task.completed_at, Some(now));
}
