//! How the timeline shows echoes: labels of priorities and days, which echoes
//! are shown, and optional text from form fields.

use chrono::Datelike;
use vstd::prelude::*;

use crate::calendar::{valid_ymd, Date, LocalDateTime};
use crate::model::echo::{Echo, EchoContent};
use crate::model::task::{count_done, Priority, TaskData};
use crate::model::{PlainData, ECHO_TYPE_MEDITATION, ECHO_TYPE_PLAIN, ECHO_TYPE_TASK, ECHO_TYPE_WORKOUT};
use crate::storage::{id_text, uuid_text, zero_padded};
use crate::text::{clone_strings, decimal, std_decimal, std_trim, str_eq, trimmed};

verus! {

/// The word a priority is labelled with.
pub open spec fn priority_word(p: Priority) -> Seq<char> {
    match p {
        Priority::Low => "low"@,
        Priority::Medium => "medium"@,
        Priority::High => "high"@,
        Priority::Critical => "critical"@,
    }
}

/// The priority a form value names; anything but "low", "high" and
/// "critical" means medium.
pub open spec fn priority_named(s: Seq<char>) -> Priority {
    if s == "low"@ {
        Priority::Low
    } else if s == "high"@ {
        Priority::High
    } else if s == "critical"@ {
        Priority::Critical
    } else {
        Priority::Medium
    }
}

/// The priority a form value names; anything unknown means medium.
pub fn parse_priority(value: &str) -> (r: Priority)
    ensures
        r == priority_named(value@),
{
    if str_eq(value, "low") {
        Priority::Low
    } else if str_eq(value, "high") {
        Priority::High
    } else if str_eq(value, "critical") {
        Priority::Critical
    } else {
        Priority::Medium
    }
}

/// The word a priority is labelled with.
pub fn priority_label(priority: &Priority) -> (r: &'static str)
    ensures
        r@ == priority_word(*priority),
{
    match priority {
        Priority::Low => "low",
        Priority::Medium => "medium",
        Priority::High => "high",
        Priority::Critical => "critical",
    }
}

/// A priority's label reads back as that priority.
pub proof fn law_priority_label_round_trip(p: Priority)
    ensures
        priority_named(priority_word(p)) == p,
{
    reveal_strlit("low");
    reveal_strlit("medium");
    reveal_strlit("high");
    reveal_strlit("critical");
    assert("low"@.len() == 3);
    assert("medium"@.len() == 6);
    assert("high"@.len() == 4);
    assert("critical"@.len() == 8);
}

/// The trimmed text of a form field, or `None` where nothing is left.
pub fn non_empty(value: &str) -> (r: Option<String>)
    ensures
        r is None <==> trimmed(value@).len() == 0,
        r matches Some(t) ==> t@ == trimmed(value@),
{
    let t = std_trim(value);
    if t.is_empty() {
        None
    } else {
        Some(t.to_owned())
    }
}

/// How a day `diff` days before today is described.
pub open spec fn relative_text(diff: int) -> Seq<char> {
    if diff == 0 {
        "Today"@
    } else if diff == 1 {
        "Yesterday"@
    } else if diff == -1 {
        "Tomorrow"@
    } else if diff > 1 {
        decimal(diff as nat) + " days ago"@
    } else {
        "in "@ + decimal((-diff) as nat) + " days"@
    }
}

/// How `day` is described as seen from `today`: "Today", "Yesterday",
/// "Tomorrow", "n days ago" or "in n days".
pub fn relative_label(day: Date, today: Date) -> (r: String)
    ensures
        r@ == relative_text(today.day_number() - day.day_number()),
{
    proof {
        use_type_invariant(&day);
        use_type_invariant(&today);
        crate::calendar::lemma_day_number_bounds(day);
        crate::calendar::lemma_day_number_bounds(today);
    }
    let diff: i64 = today.num_days_from_ce() - day.num_days_from_ce();
    if diff == 0 {
        "Today".to_owned()
    } else if diff == 1 {
        "Yesterday".to_owned()
    } else if diff == -1 {
        "Tomorrow".to_owned()
    } else if diff > 1 {
        let mut s = std_decimal(diff as u64);
        s.append(" days ago");
        s
    } else {
        let mut s = "in ".to_owned();
        s.append(std_decimal((-diff) as u64).as_str());
        s.append(" days");
        s
    }
}

/// Whether the timeline shows an echo: plain echoes and tasks.
pub fn is_shown(echo: &Echo) -> (r: bool)
    ensures
        r == (echo.content is PlainEcho || echo.content is TaskEcho),
{
    let kind = echo.content_type_name();
    proof {
        reveal_strlit("Echo");
        reveal_strlit("Meditation Echo");
        reveal_strlit("Task Echo");
        reveal_strlit("Workout Echo");
        assert(ECHO_TYPE_PLAIN@.len() == 4);
        assert(ECHO_TYPE_MEDITATION@.len() == 15);
        assert(ECHO_TYPE_TASK@.len() == 9);
        assert(ECHO_TYPE_WORKOUT@.len() == 12);
    }
    str_eq(kind, ECHO_TYPE_PLAIN) || str_eq(kind, ECHO_TYPE_TASK)
}

/// What the timeline shows of an echo.
#[derive(Clone, Debug)]
pub struct EchoCard {
    pub id: String,
    pub kind: String,
    pub title: String,
    pub body: String,
    pub time: String,
    pub completed: bool,
    pub priority: String,
    pub checklist_done: i32,
    pub checklist_total: i32,
    pub mood: i32,
    pub energy: i32,
    pub has_mood: bool,
    pub has_energy: bool,
    pub pinned: bool,
    pub tags: Vec<String>,
}

/// A time of day on a 12-hour clock, as chrono writes it with `%I:%M %p`:
/// two-digit hour from 01 to 12, two-digit minute, then AM or PM.
pub open spec fn clock_text(secs: int) -> Seq<char> {
    let h = secs / 3600;
    let h12 = if h % 12 == 0 {
        12
    } else {
        h % 12
    };
    zero_padded(decimal(h12 as nat), 2) + seq![':'] + zero_padded(
        decimal(((secs % 3600) / 60) as nat),
        2,
    ) + if h < 12 {
        " AM"@
    } else {
        " PM"@
    }
}

/// The body a card shows: a plain echo's markdown, a task's description
/// (empty without one), nothing for other echoes.
pub open spec fn card_body(c: EchoContent) -> Seq<char> {
    match c {
        EchoContent::PlainEcho(p) => p.markdown@,
        EchoContent::TaskEcho(t) => match t.description {
            Some(d) => d@,
            None => Seq::empty(),
        },
        _ => Seq::empty(),
    }
}

/// Whether `card` shows `echo`: its id, creation time, ratings, pin and tags;
/// for tasks the title, description, completion, priority and checklist
/// progress under the kind "task"; the markdown of plain echoes; and for
/// other echoes only the shared parts, under the kind "plain".
pub open spec fn shows(card: EchoCard, echo: Echo) -> bool {
    &&& card.id@ == uuid_text(echo.id.0)
    &&& card.time@ == clock_text(echo.created_at.time@.0)
    &&& card.body@ == card_body(echo.content)
    &&& card.mood == match echo.mood {
        Some(v) => v as i32,
        None => 0i32,
    }
    &&& card.energy == match echo.energy {
        Some(v) => v as i32,
        None => 0i32,
    }
    &&& card.has_mood == echo.mood is Some
    &&& card.has_energy == echo.energy is Some
    &&& card.pinned == echo.pinned
    &&& card.tags@ == echo.tags@
    &&& match echo.content {
        EchoContent::TaskEcho(t) => {
            &&& card.kind@ == "task"@
            &&& card.title@ == echo.title@
            &&& card.completed == t.completed
            &&& card.priority@ == priority_word(t.priority)
            &&& card.checklist_done == count_done(t.checklist@) as i32
            &&& card.checklist_total == t.checklist@.len() as i32
        },
        _ => {
            &&& card.kind@ == "plain"@
            &&& card.title@.len() == 0
            &&& !card.completed
            &&& card.priority@.len() == 0
            &&& card.checklist_done == 0
            &&& card.checklist_total == 0
        },
    }
}

/// The card the timeline shows for an echo.
pub fn card_of(echo: &Echo) -> (r: EchoCard)
    ensures
        shows(r, *echo),
{
    proof {
        use_type_invariant(&echo.created_at.time);
    }
    let mut card = EchoCard {
        id: id_text(echo.id),
        kind: "plain".to_owned(),
        title: String::new(),
        body: String::new(),
        time: chrono_clock_text(echo.created_at.time.num_seconds_from_midnight()),
        completed: false,
        priority: String::new(),
        checklist_done: 0,
        checklist_total: 0,
        mood: match echo.mood {
            Some(v) => v as i32,
            None => 0,
        },
        energy: match echo.energy {
            Some(v) => v as i32,
            None => 0,
        },
        has_mood: echo.mood.is_some(),
        has_energy: echo.energy.is_some(),
        pinned: echo.pinned,
        tags: clone_strings(&echo.tags),
    };
    match &echo.content {
        EchoContent::TaskEcho(task) => {
            let (done, total) = task.progress();
            card.kind = "task".to_owned();
            card.title = echo.title.clone();
            card.body = match &task.description {
                Some(d) => d.clone(),
                None => String::new(),
            };
            card.completed = task.completed;
            card.priority = priority_label(&task.priority).to_owned();
            card.checklist_done = done as i32;
            card.checklist_total = total as i32;
        },
        EchoContent::PlainEcho(plain) => {
            card.body = plain.markdown.clone();
        },
        _ => {},
    }
    card
}

/// What chrono's `NaiveDate::parse_from_str(text, "%Y-%m-%d")` reads from a
/// text, if it reads a date.
pub uninterp spec fn iso_date_read(text: Seq<char>) -> Option<(int, int, int)>;

/// The day an ISO date from a form names (`YYYY-MM-DD`), or `today` where it
/// names none.
pub fn parse_day_or(iso: &str, today: Date) -> (r: Date)
    ensures
        r@ == match iso_date_read(iso@) {
            Some(t) => t,
            None => today@,
        },
{
    match chrono_iso_date(iso) {
        Some((y, m, d)) => match Date::from_ymd_opt(y, m, d) {
            Some(day) => day,
            None => today,
        },
        None => today,
    }
}

/// The day an ISO date from a form names (`YYYY-MM-DD`), or today (on the
/// local clock) where it names none.
pub fn parse_day(iso: &str) -> (r: Date)
    ensures
        iso_date_read(iso@) matches Some(t) ==> r@ == t,
{
    parse_day_or(iso, LocalDateTime::now().date_naive())
}

/// Whether `t` carries what a task form says: the description trimmed (none
/// where blank), the priority it names, completed as ticked (completed now).
pub open spec fn form_fields(
    t: TaskData,
    description: Seq<char>,
    priority: Seq<char>,
    completed: bool,
) -> bool {
    &&& t.description is None <==> trimmed(description).len() == 0
    &&& t.description matches Some(d) ==> d@ == trimmed(description)
    &&& t.priority == priority_named(priority)
    &&& t.completed == completed
    &&& (completed ==> t.completed_at is Some)
    &&& (!completed ==> t.completed_at is None)
}

/// Whether `t` is `base` with what a task form says applied.
pub open spec fn task_from_form(
    base: TaskData,
    t: TaskData,
    description: Seq<char>,
    priority: Seq<char>,
    completed: bool,
) -> bool {
    &&& form_fields(t, description, priority, completed)
    &&& t.due_date == base.due_date
    &&& t.due_time == base.due_time
    &&& t.checklist@ == base.checklist@
    &&& t.estimated_minutes == base.estimated_minutes
    &&& t.recurrence == base.recurrence
}

/// The day a form's ISO date names, or `today` where it names none.
pub open spec fn form_day(day_iso: Seq<char>, today: Date) -> (int, int, int) {
    match iso_date_read(day_iso) {
        Some(t) => t,
        None => today@,
    }
}

/// A new plain echo from a form: on the form's day (`today` where its date
/// does not read), without a title, holding `body`.
pub fn new_plain_from_form(day_iso: &str, today: Date, body: String) -> (r: Echo)
    ensures
        r.is_fresh(r.day, r.title, r.content),
        r.day@ == form_day(day_iso@, today),
        r.title@.len() == 0,
        r.content == EchoContent::PlainEcho(PlainData { markdown: body }),
{
    Echo::new(
        parse_day_or(day_iso, today),
        String::new(),
        EchoContent::PlainEcho(PlainData { markdown: body }),
    )
}

/// A new task echo from a form, on the form's day (`today` where its date
/// does not read).
pub fn new_task_from_form(
    day_iso: &str,
    today: Date,
    title: String,
    description: &str,
    priority: &str,
    completed: bool,
) -> (r: Echo)
    ensures
        r.is_fresh(r.day, title, r.content),
        r.day@ == form_day(day_iso@, today),
        r.content matches EchoContent::TaskEcho(t) && form_fields(
            t,
            description@,
            priority@,
            completed,
        ) && t.due_date is None && t.due_time is None && t.checklist@.len() == 0
            && t.estimated_minutes is None && t.recurrence is None,
{
    let mut echo = Echo::new_task(parse_day_or(day_iso, today), title);
    match echo.as_task_mut() {
        Some(task) => {
            task.description = non_empty(description);
            task.priority = parse_priority(priority);
            if completed {
                task.complete();
            }
        },
        None => {},
    }
    echo
}

/// Applies an edited task form to an echo at `now`: the title, and for a
/// task the description, priority and completion (completed at `now` when
/// ticked); the update time is stamped with `now`.
pub fn apply_task_form_at(
    echo: &mut Echo,
    title: String,
    description: &str,
    priority: &str,
    completed: bool,
    now: LocalDateTime,
)
    ensures
        (*final(echo) == Echo {
            title,
            content: final(echo).content,
            updated_at: now,
            ..*old(echo)
        }),
        old(echo).content matches EchoContent::TaskEcho(t) ==> final(echo).content matches EchoContent::TaskEcho(n)
            && task_from_form(t, n, description@, priority@, completed) && n.completed_at == if completed {
            Some(now)
        } else {
            None
        },
        !(old(echo).content is TaskEcho) ==> final(echo).content == old(echo).content,
{
    echo.title = title;
    match echo.as_task_mut() {
        Some(task) => {
            task.description = non_empty(description);
            task.priority = parse_priority(priority);
            if completed {
                task.complete_at(now);
            } else {
                task.uncomplete();
            }
        },
        None => {},
    }
    echo.updated_at = now;
}

/// Applies an edited task form to an echo now (see `apply_task_form_at`).
pub fn apply_task_form(
    echo: &mut Echo,
    title: String,
    description: &str,
    priority: &str,
    completed: bool,
)
    ensures
        final(echo).title == title,
        final(echo).id == old(echo).id,
        final(echo).day == old(echo).day,
        final(echo).section_id == old(echo).section_id,
        final(echo).mood == old(echo).mood,
        final(echo).energy == old(echo).energy,
        final(echo).pinned == old(echo).pinned,
        final(echo).tags == old(echo).tags,
        final(echo).linked_echo_id == old(echo).linked_echo_id,
        final(echo).created_at == old(echo).created_at,
        old(echo).content matches EchoContent::TaskEcho(t) ==> final(echo).content matches EchoContent::TaskEcho(n)
            && task_from_form(t, n, description@, priority@, completed),
        !(old(echo).content is TaskEcho) ==> final(echo).content == old(echo).content,
{
    apply_task_form_at(echo, title, description, priority, completed, LocalDateTime::now());
}

/// The content with its task flipped between completed (at `now`) and open;
/// other contents as they are.
pub open spec fn toggled_content(c: EchoContent, now: LocalDateTime) -> EchoContent {
    match c {
        EchoContent::TaskEcho(t) => EchoContent::TaskEcho(
            TaskData {
                completed: !t.completed,
                completed_at: if t.completed {
                    None
                } else {
                    Some(now)
                },
                ..t
            },
        ),
        _ => c,
    }
}

/// Flips a task between completed (at `now`) and open; the update time is
/// stamped with `now` for any echo.
pub fn toggle_task_completion_at(echo: &mut Echo, now: LocalDateTime)
    ensures
        (*final(echo) == Echo {
            content: toggled_content(old(echo).content, now),
            updated_at: now,
            ..*old(echo)
        }),
{
    match echo.as_task_mut() {
        Some(task) => {
            if task.completed {
                task.uncomplete();
            } else {
                task.complete_at(now);
            }
        },
        None => {},
    }
    echo.updated_at = now;
}

/// Flips a task between completed (now) and open; the update time is stamped
/// for any echo (see `toggle_task_completion_at`).
pub fn toggle_task_completion(echo: &mut Echo)
    ensures
        final(echo).title == old(echo).title,
        final(echo).id == old(echo).id,
        final(echo).day == old(echo).day,
        final(echo).section_id == old(echo).section_id,
        final(echo).mood == old(echo).mood,
        final(echo).energy == old(echo).energy,
        final(echo).pinned == old(echo).pinned,
        final(echo).tags == old(echo).tags,
        final(echo).linked_echo_id == old(echo).linked_echo_id,
        final(echo).created_at == old(echo).created_at,
        old(echo).content matches EchoContent::TaskEcho(t) ==> final(echo).content matches EchoContent::TaskEcho(n)
            && n.completed == !t.completed && (n.completed ==> n.completed_at is Some) && (
            !n.completed ==> n.completed_at is None) && (n == TaskData {
                completed: n.completed,
                completed_at: n.completed_at,
                ..t
            }),
        !(old(echo).content is TaskEcho) ==> final(echo).content == old(echo).content,
{
    toggle_task_completion_at(echo, LocalDateTime::now());
}

/// A time of day written by chrono as `%I:%M %p`. Claimed: the text
/// `clock_text` gives, as chrono's format documentation describes it.
#[verifier::external_body]
fn chrono_clock_text(secs: u32) -> (r: String)
    requires
        secs < 86400,
    ensures
        r@ == clock_text(secs as int),
{
    chrono::NaiveTime::from_num_seconds_from_midnight_opt(secs, 0).unwrap().format("%I:%M %p").to_string()
}

/// The date chrono's `NaiveDate::parse_from_str(text, "%Y-%m-%d")` reads, as
/// year, month and day. Claimed: the result is `iso_date_read` of the text, a
/// name for what that parser accepts, and it is a valid date.
#[verifier::external_body]
fn chrono_iso_date(text: &str) -> (r: Option<(i32, u32, u32)>)
    ensures
        r is Some <==> iso_date_read(text@) is Some,
        r matches Some(t) ==> iso_date_read(text@) == Some((t.0 as int, t.1 as int, t.2 as int))
            && valid_ymd(t.0 as int, t.1 as int, t.2 as int),
{
    match chrono::NaiveDate::parse_from_str(text, "%Y-%m-%d") {
        Ok(d) => Some((d.year(), d.month(), d.day())),
        Err(_) => None,
    }
}

} // verus!
