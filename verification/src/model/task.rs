//! Task echoes: things to do, with a checklist, a due date, a priority and a
//! recurrence.

use chrono::TimeZone;
use vstd::prelude::*;

use super::echo::{derefs, echoes_where, lemma_derefs_push, lemma_echoes_where_all, lemma_echoes_where_step, Echo, EchoContent};
use crate::calendar::{add_months_ymd, max_day_number, Date, LocalDateTime, Time};
use crate::ids::is_random_uuid;
use crate::text::{clone_opt_string, clone_strings};

verus! {

/// One line of a task's checklist.
#[derive(Clone, Debug)]
pub struct ChecklistItem {
    pub text: String,
    pub done: bool,
}

/// How urgent a task is, from `Low` to `Critical`.
#[derive(Clone, Copy, Debug, PartialEq, Eq, PartialOrd, Ord, Hash, Structural)]
pub enum Priority {
    Low,
    Medium,
    High,
    Critical,
}

/// How often a task comes back.
#[derive(Clone, Copy, Debug, PartialEq, Eq, Hash, Structural)]
pub enum Recurrence {
    Daily,
    Weekly,
    Monthly,
}

/// The content of a task echo.
#[derive(Clone, Debug)]
pub struct TaskData {
    pub description: Option<String>,
    pub due_date: Option<Date>,
    pub due_time: Option<Time>,
    pub completed: bool,
    pub completed_at: Option<LocalDateTime>,
    pub priority: Priority,
    pub checklist: Vec<ChecklistItem>,
    pub estimated_minutes: Option<u32>,
    pub recurrence: Option<Recurrence>,
}

impl Priority {
    /// The place of a priority in the order `Low < Medium < High < Critical`.
    pub open spec fn rank(self) -> int {
        match self {
            Priority::Low => 0,
            Priority::Medium => 1,
            Priority::High => 2,
            Priority::Critical => 3,
        }
    }

    /// The place of this priority in the order `Low < Medium < High < Critical`.
    pub fn level(&self) -> (r: u8)
        ensures
            r == self.rank(),
    {
        match self {
            Priority::Low => 0,
            Priority::Medium => 1,
            Priority::High => 2,
            Priority::Critical => 3,
        }
    }
}

/// Each priority has its own place in the order.
pub proof fn law_priority_rank_is_faithful(a: Priority, b: Priority)
    ensures
        a.rank() == b.rank() <==> a == b,
        0 <= a.rank() <= 3,
{
}

/// How many items of a checklist are done.
pub open spec fn count_done(s: Seq<ChecklistItem>) -> nat
    decreases s.len(),
{
    if s.len() == 0 {
        0
    } else {
        count_done(s.drop_last()) + if s.last().done {
            1nat
        } else {
            0nat
        }
    }
}

/// Whether every item of a checklist is done.
pub open spec fn all_done(s: Seq<ChecklistItem>) -> bool {
    forall|i: int| 0 <= i < s.len() ==> #[trigger] s[i].done
}

/// The checklist with item `i` flipped between done and not done (unchanged
/// where there is no item `i`).
pub open spec fn toggled(s: Seq<ChecklistItem>, i: int) -> Seq<ChecklistItem> {
    if 0 <= i < s.len() {
        s.update(i, ChecklistItem { text: s[i].text, done: !s[i].done })
    } else {
        s
    }
}

/// The checklist with item `i` marked `done` (unchanged where there is none).
pub open spec fn marked(s: Seq<ChecklistItem>, i: int, done: bool) -> Seq<ChecklistItem> {
    if 0 <= i < s.len() {
        s.update(i, ChecklistItem { text: s[i].text, done })
    } else {
        s
    }
}

/// The checklist with the text of item `i` replaced (unchanged where there is none).
pub open spec fn retexted(s: Seq<ChecklistItem>, i: int, text: String) -> Seq<ChecklistItem> {
    if 0 <= i < s.len() {
        s.update(i, ChecklistItem { text, done: s[i].done })
    } else {
        s
    }
}

/// The checklist without item `i` (unchanged where there is none).
pub open spec fn without_item(s: Seq<ChecklistItem>, i: int) -> Seq<ChecklistItem> {
    if 0 <= i < s.len() {
        s.remove(i)
    } else {
        s
    }
}

/// The same items, none of them done.
pub open spec fn reset_items(s: Seq<ChecklistItem>) -> Seq<ChecklistItem> {
    Seq::new(s.len(), |i: int| ChecklistItem { text: s[i].text, done: false })
}

/// Whether `next` is the day that `rec` gives after `due`.
pub open spec fn follows(rec: Recurrence, due: Date, next: Date) -> bool {
    match rec {
        Recurrence::Daily => next.day_number() == due.day_number() + 1,
        Recurrence::Weekly => next.day_number() == due.day_number() + 7,
        Recurrence::Monthly => add_months_ymd(due@.0, due@.1, due@.2, 1) == Some(next@),
    }
}

/// Whether a task has a due date, a recurrence and room for its next date.
pub open spec fn has_next_due(t: TaskData) -> bool {
    &&& t.due_date is Some
    &&& t.recurrence is Some
    &&& t.recurrence == Some(Recurrence::Monthly) ==> add_months_ymd(
        t.due_date.unwrap()@.0,
        t.due_date.unwrap()@.1,
        t.due_date.unwrap()@.2,
        1,
    ) is Some
}

/// Whether a daily or weekly step from the due date stays in range (a monthly
/// step that does not simply has no next date).
pub open spec fn next_due_fits(t: TaskData) -> bool {
    match (t.due_date, t.recurrence) {
        (Some(d), Some(Recurrence::Daily)) => d.day_number() + 1 <= max_day_number(),
        (Some(d), Some(Recurrence::Weekly)) => d.day_number() + 7 <= max_day_number(),
        _ => true,
    }
}

/// What `due_datetime` may give for a task: nothing without a due date; else,
/// if anything, the due date at the due time (midnight without one) on a
/// local clock.
pub open spec fn due_outcome(t: TaskData, due: Option<LocalDateTime>) -> bool {
    &&& t.due_date is None ==> due is None
    &&& due matches Some(dt) ==> {
        &&& t.due_date == Some(dt.date)
        &&& t.due_time matches Some(tm) ==> dt.time == tm
        &&& t.due_time is None ==> dt.time@ == (0int, 0int)
        &&& -86400 < dt.offset_secs < 86400
    }
}

/// Whether a task is overdue at `now`, given the moment `due` it is due at: an
/// open task with a due date is overdue when that moment has passed, or,
/// without a due time, when its day lies before today.
pub open spec fn overdue_at(t: TaskData, due: Option<LocalDateTime>, now: LocalDateTime) -> bool {
    &&& !t.completed
    &&& t.due_date is Some
    &&& match t.due_time {
        Some(_) => due matches Some(dt) && dt.earlier_than(now),
        None => t.due_date.unwrap().precedes(now.date),
    }
}

impl TaskData {
    /// A task with nothing set: no description, due date or checklist, medium
    /// priority, not completed.
    pub open spec fn is_blank(self) -> bool {
        &&& self.description is None
        &&& self.due_date is None
        &&& self.due_time is None
        &&& !self.completed
        &&& self.completed_at is None
        &&& self.priority == Priority::Medium
        &&& self.checklist@.len() == 0
        &&& self.estimated_minutes is None
        &&& self.recurrence is None
    }

    /// A new, blank task.
    pub fn new() -> (r: TaskData)
        ensures
            r.is_blank(),
    {
        TaskData {
            description: None,
            due_date: None,
            due_time: None,
            completed: false,
            completed_at: None,
            priority: Priority::Medium,
            checklist: Vec::new(),
            estimated_minutes: None,
            recurrence: None,
        }
    }

    /// Marks the task completed at `now`.
    pub fn complete_at(&mut self, now: LocalDateTime)
        ensures
            (*final(self) == TaskData { completed: true, completed_at: Some(now), ..*old(self) }),
    {
        self.completed = true;
        self.completed_at = Some(now);
    }

    /// Marks the task completed, now (see `complete_at`).
    pub fn complete(&mut self)
        ensures
            final(self).completed,
            final(self).completed_at is Some,
            (*final(self) == TaskData {
                completed: true,
                completed_at: final(self).completed_at,
                ..*old(self)
            }),
    {
        self.complete_at(LocalDateTime::now());
    }

    /// Marks the task open again.
    pub fn uncomplete(&mut self)
        ensures
            (*final(self) == TaskData { completed: false, completed_at: None, ..*old(self) }),
    {
        self.completed = false;
        self.completed_at = None;
    }

    /// Whether the task is completed.
    pub fn is_complete(&self) -> (r: bool)
        ensures
            r == self.completed,
    {
        self.completed
    }

    /// Appends an item, not done. Completion is left as it is.
    pub fn add_item(&mut self, text: String)
        ensures
            final(self).checklist@ == old(self).checklist@.push(
                ChecklistItem { text, done: false },
            ),
            (*final(self) == TaskData { checklist: final(self).checklist, ..*old(self) }),
    {
        self.checklist.push(ChecklistItem { text, done: false });
    }

    /// Removes item `index`, if there is one. Completion is left as it is.
    pub fn remove_item(&mut self, index: usize)
        ensures
            final(self).checklist@ == without_item(old(self).checklist@, index as int),
            (*final(self) == TaskData { checklist: final(self).checklist, ..*old(self) }),
    {
        if index < self.checklist.len() {
            self.checklist.remove(index);
        }
    }

    /// Replaces the text of item `index`, if there is one.
    pub fn edit_item(&mut self, index: usize, text: String)
        ensures
            final(self).checklist@ == retexted(old(self).checklist@, index as int, text),
            (*final(self) == TaskData { checklist: final(self).checklist, ..*old(self) }),
    {
        if index < self.checklist.len() {
            let done = self.checklist[index].done;
            self.checklist.set(index, ChecklistItem { text, done });
        }
    }

    /// Flips item `index` between done and not done, if there is one.
    /// Completion is left as it is.
    pub fn toggle_item(&mut self, index: usize)
        ensures
            final(self).checklist@ == toggled(old(self).checklist@, index as int),
            (*final(self) == TaskData { checklist: final(self).checklist, ..*old(self) }),
    {
        if index < self.checklist.len() {
            let item = &mut self.checklist[index];
            item.done = !item.done;
        }
    }

    /// Marks item `index` done or not done, if there is one. Completion is
    /// left as it is.
    pub fn set_item_done(&mut self, index: usize, done: bool)
        ensures
            final(self).checklist@ == marked(old(self).checklist@, index as int, done),
            (*final(self) == TaskData { checklist: final(self).checklist, ..*old(self) }),
    {
        if index < self.checklist.len() {
            let item = &mut self.checklist[index];
            item.done = done;
        }
    }

    /// How many items are done, and how many there are.
    pub fn progress(&self) -> (r: (usize, usize))
        ensures
            r.0 == count_done(self.checklist@),
            r.1 == self.checklist@.len(),
    {
        let mut done: usize = 0;
        let mut i: usize = 0;
        while i < self.checklist.len()
            invariant
                i <= self.checklist@.len(),
                done == count_done(self.checklist@.take(i as int)),
                done <= i,
            decreases self.checklist@.len() - i,
        {
            assert(self.checklist@.take(i as int + 1).drop_last() =~= self.checklist@.take(
                i as int,
            ));
            if self.checklist[i].done {
                done = done + 1;
            }
            i = i + 1;
        }
        assert(self.checklist@.take(i as int) =~= self.checklist@);
        (done, self.checklist.len())
    }

    /// Whether there are items and all of them are done.
    pub fn all_items_done(&self) -> (r: bool)
        ensures
            r == (self.checklist@.len() > 0 && all_done(self.checklist@)),
    {
        if self.checklist.len() == 0 {
            return false;
        }
        let mut i: usize = 0;
        while i < self.checklist.len()
            invariant
                i <= self.checklist@.len(),
                forall|k: int| 0 <= k < i ==> #[trigger] self.checklist@[k].done,
            decreases self.checklist@.len() - i,
        {
            if !self.checklist[i].done {
                return false;
            }
            i = i + 1;
        }
        true
    }

    /// Whether the task has a checklist.
    pub fn is_list(&self) -> (r: bool)
        ensures
            r == (self.checklist@.len() > 0),
    {
        self.checklist.len() > 0
    }

    /// Removes every item. Completion is left as it is.
    pub fn clear_checklist(&mut self)
        ensures
            final(self).checklist@.len() == 0,
            (*final(self) == TaskData { checklist: final(self).checklist, ..*old(self) }),
    {
        self.checklist.clear();
    }

    /// Sets the priority.
    pub fn set_priority(&mut self, priority: Priority)
        ensures
            (*final(self) == TaskData { priority, ..*old(self) }),
    {
        self.priority = priority;
    }

    /// Sets the due date and time.
    pub fn set_due(&mut self, date: Option<Date>, time: Option<Time>)
        ensures
            (*final(self) == TaskData { due_date: date, due_time: time, ..*old(self) }),
    {
        self.due_date = date;
        self.due_time = time;
    }

    /// Removes the due date and time.
    pub fn clear_due(&mut self)
        ensures
            (*final(self) == TaskData { due_date: None, due_time: None, ..*old(self) }),
    {
        self.due_date = None;
        self.due_time = None;
    }

    /// The moment the task is due on the local clock: the due date at the due
    /// time, or at midnight without one. `None` without a due date, and where
    /// that local time does not exist or is ambiguous.
    pub fn due_datetime(&self) -> (r: Option<LocalDateTime>)
        ensures
            due_outcome(*self, r),
    {
        let date = match self.due_date {
            Some(d) => d,
            None => {
                return None;
            },
        };
        let time = match self.due_time {
            Some(t) => t,
            None => Time::midnight(),
        };
        proof {
            use_type_invariant(&date);
            use_type_invariant(&time);
        }
        match chrono_local_offset(
            date.year(),
            date.month(),
            date.day(),
            time.num_seconds_from_midnight(),
            time.nanosecond(),
        ) {
            Some(offset) => Some(LocalDateTime { date, time, offset_secs: offset }),
            None => None,
        }
    }

    /// Whether the task is overdue at `now`, given the moment it is due at.
    pub fn overdue_given(&self, due: Option<LocalDateTime>, now: LocalDateTime) -> (r: bool)
        ensures
            r == overdue_at(*self, due, now),
    {
        if self.completed {
            return false;
        }
        let due_date = match self.due_date {
            Some(d) => d,
            None => {
                return false;
            },
        };
        match self.due_time {
            Some(_) => match due {
                Some(dt) => dt.is_before(&now),
                None => false,
            },
            None => due_date.is_before(&now.date_naive()),
        }
    }

    /// Whether the task is open, has a due date, and that has passed at `now`.
    pub fn is_overdue(&self, now: LocalDateTime) -> (r: bool)
        ensures
            exists|due: Option<LocalDateTime>| due_outcome(*self, due) && r == overdue_at(
                *self,
                due,
                now,
            ),
    {
        let due = if self.due_time.is_some() {
            self.due_datetime()
        } else {
            None
        };
        proof {
            if self.due_time.is_none() {
                assert(due_outcome(*self, None));
            }
        }
        self.overdue_given(due, now)
    }

    /// The due date of the next occurrence: a day, a week or a calendar month
    /// (clamped to the month's end) after the due date; `None` without a due
    /// date or recurrence, or where a month later is out of range.
    pub fn next_due_date(&self) -> (r: Option<Date>)
        requires
            next_due_fits(*self),
        ensures
            r is Some <==> has_next_due(*self),
            r matches Some(n) ==> follows(self.recurrence.unwrap(), self.due_date.unwrap(), n),
    {
        let date = match self.due_date {
            Some(d) => d,
            None => {
                return None;
            },
        };
        let rec = match self.recurrence {
            Some(r) => r,
            None => {
                return None;
            },
        };
        match rec {
            Recurrence::Daily => date.checked_add_days(1),
            Recurrence::Weekly => date.checked_add_days(7),
            Recurrence::Monthly => date.checked_add_months(1),
        }
    }

    /// Sets the estimate of the minutes the task takes.
    pub fn set_estimated_minutes(&mut self, minutes: Option<u32>)
        ensures
            (*final(self) == TaskData { estimated_minutes: minutes, ..*old(self) }),
    {
        self.estimated_minutes = minutes;
    }
}

impl Default for TaskData {
    fn default() -> (r: TaskData)
        ensures
            r.is_blank(),
    {
        TaskData::new()
    }
}

/// Whether `e` is the next occurrence spawned from the echo `src`, whose task
/// is `t`: a new echo with a fresh id on the next due date, in the same
/// section, with the same title, tags and task settings, the task open and
/// every item of its checklist not done.
pub open spec fn spawned_from(src: Echo, t: TaskData, e: Echo) -> bool {
    &&& follows(t.recurrence.unwrap(), t.due_date.unwrap(), e.day)
    &&& is_random_uuid(e.id.0)
    &&& e.section_id == src.section_id
    &&& e.title == src.title
    &&& e.tags@ == src.tags@
    &&& e.mood is None
    &&& e.energy is None
    &&& !e.pinned
    &&& e.linked_echo_id is None
    &&& e.created_at == e.updated_at
    &&& e.content matches EchoContent::TaskEcho(n) && {
        &&& n.description == t.description
        &&& n.due_date == Some(e.day)
        &&& n.due_time == t.due_time
        &&& !n.completed
        &&& n.completed_at is None
        &&& n.priority == t.priority
        &&& n.checklist@ == reset_items(t.checklist@)
        &&& n.estimated_minutes == t.estimated_minutes
        &&& n.recurrence == t.recurrence
    }
}

/// Whether an echo is a task that is not completed.
pub open spec fn is_open_task(e: Echo) -> bool {
    e.content matches EchoContent::TaskEcho(t) && !t.completed
}

/// The condition of being an open task.
pub open spec fn open_task() -> spec_fn(Echo) -> bool {
    |e: Echo| is_open_task(e)
}

/// Whether an echo is a task.
pub open spec fn is_task(e: Echo) -> bool {
    e.content is TaskEcho
}

/// The condition of being a task of priority `p`.
pub open spec fn task_with(p: Priority) -> spec_fn(Echo) -> bool {
    |e: Echo| e.content matches EchoContent::TaskEcho(t) && t.priority == p
}

/// The tasks of `s`, most urgent first; tasks of equal priority keep their
/// order.
pub open spec fn by_priority(s: Seq<Echo>) -> Seq<Echo> {
    echoes_where(s, task_with(Priority::Critical)) + echoes_where(s, task_with(Priority::High))
        + echoes_where(s, task_with(Priority::Medium)) + echoes_where(s, task_with(Priority::Low))
}

/// Whether the echo is a task overdue at `now`, given the moment it is due at.
pub open spec fn is_overdue_task(e: Echo, due: Option<LocalDateTime>, now: LocalDateTime) -> bool {
    e.content matches EchoContent::TaskEcho(t) && overdue_at(t, due, now)
}

/// The echoes of `s` that are tasks overdue at `now`, where `dues[i]` is the
/// moment `s[i]` is due at.
pub open spec fn overdue_list(
    s: Seq<Echo>,
    dues: Seq<Option<LocalDateTime>>,
    now: LocalDateTime,
) -> Seq<Echo>
    decreases s.len(),
{
    if s.len() == 0 {
        Seq::empty()
    } else {
        let rest = overdue_list(s.drop_last(), dues.drop_last(), now);
        if is_overdue_task(s.last(), dues.last(), now) {
            rest.push(s.last())
        } else {
            rest
        }
    }
}

/// Whether `dues` could be what `due_datetime` gives for the tasks of `s`.
pub open spec fn dues_fit(s: Seq<Echo>, dues: Seq<Option<LocalDateTime>>) -> bool {
    &&& dues.len() == s.len()
    &&& forall|i: int|
        0 <= i < s.len() ==> (#[trigger] s[i].content matches EchoContent::TaskEcho(t)
            ==> due_outcome(t, dues[i]))
}

impl Echo {
    /// A new echo holding a blank task.
    pub fn new_task(day: Date, title: String) -> (r: Echo)
        ensures
            r.is_fresh(day, title, r.content),
            r.content matches EchoContent::TaskEcho(t) && t.is_blank(),
    {
        Echo::new(day, title, EchoContent::TaskEcho(TaskData::new()))
    }

    /// The task an echo holds, if it is one.
    pub fn as_task(&self) -> (r: Option<&TaskData>)
        ensures
            r is Some <==> self.content is TaskEcho,
            r matches Some(t) ==> self.content == EchoContent::TaskEcho(*t),
    {
        match &self.content {
            EchoContent::TaskEcho(data) => Some(data),
            _ => None,
        }
    }

    /// The task an echo holds, to change in place, if it is one.
    pub fn as_task_mut(&mut self) -> (r: Option<&mut TaskData>)
        ensures
            r is Some <==> old(self).content is TaskEcho,
            r matches Some(t) ==> old(self).content == EchoContent::TaskEcho(*t) && (*final(self)
                == Echo { content: EchoContent::TaskEcho(*final(t)), ..*old(self) }),
            r is None ==> *final(self) == *old(self),
    {
        match &mut self.content {
            EchoContent::TaskEcho(data) => Some(data),
            _ => None,
        }
    }

    /// The next occurrence of a recurring task: a new echo on the next due
    /// date, the task open again with its checklist unchecked. `None` for
    /// echoes that are not tasks and for tasks without a next due date.
    pub fn spawn_next_occurrence(&self) -> (r: Option<Echo>)
        requires
            self.content matches EchoContent::TaskEcho(t) ==> next_due_fits(t),
        ensures
            r is Some <==> (self.content matches EchoContent::TaskEcho(t) && has_next_due(t)),
            r matches Some(e) ==> (self.content matches EchoContent::TaskEcho(t) && spawned_from(
                *self,
                t,
                e,
            )),
    {
        let task = match self.as_task() {
            Some(t) => t,
            None => {
                return None;
            },
        };
        let next_date = match task.next_due_date() {
            Some(d) => d,
            None => {
                return None;
            },
        };
        let mut checklist: Vec<ChecklistItem> = Vec::new();
        let mut i: usize = 0;
        while i < task.checklist.len()
            invariant
                i <= task.checklist@.len(),
                checklist@ == reset_items(task.checklist@).take(i as int),
            decreases task.checklist@.len() - i,
        {
            checklist.push(ChecklistItem { text: task.checklist[i].text.clone(), done: false });
            assert(reset_items(task.checklist@).take(i as int + 1) =~= reset_items(
                task.checklist@,
            ).take(i as int).push(ChecklistItem { text: task.checklist@[i as int].text, done: false }));
            i = i + 1;
        }
        assert(reset_items(task.checklist@).take(i as int) =~= reset_items(task.checklist@));
        let next_task = TaskData {
            description: clone_opt_string(&task.description),
            due_date: Some(next_date),
            due_time: task.due_time,
            completed: false,
            completed_at: None,
            priority: task.priority,
            checklist,
            estimated_minutes: task.estimated_minutes,
            recurrence: task.recurrence,
        };
        let mut next_echo = Echo::new(next_date, self.title.clone(), EchoContent::TaskEcho(next_task));
        next_echo.tags = clone_strings(&self.tags);
        next_echo.section_id = self.section_id;
        Some(next_echo)
    }
}

/// The tasks among `echoes` that are not completed, in their order.
pub fn open_tasks(echoes: &[Echo]) -> (r: Vec<&Echo>)
    ensures
        derefs(r@) == echoes_where(echoes@, open_task()),
{
    let mut r: Vec<&Echo> = Vec::new();
    let mut i: usize = 0;
    while i < echoes.len()
        invariant
            i <= echoes@.len(),
            derefs(r@) == echoes_where(echoes@.take(i as int), open_task()),
        decreases echoes@.len() - i,
    {
        proof {
            lemma_echoes_where_step(echoes@, i as int, open_task());
        }
        let keep = match echoes[i].as_task() {
            Some(task) => !task.completed,
            None => false,
        };
        if keep {
            proof {
                lemma_derefs_push(r@, &echoes@[i as int]);
            }
            r.push(&echoes[i]);
        }
        i = i + 1;
    }
    assert(echoes@.take(i as int) =~= echoes@);
    r
}

/// The tasks among `echoes` that are overdue at `now`, in their order.
pub fn overdue_tasks(echoes: &[Echo], now: LocalDateTime) -> (r: Vec<&Echo>)
    ensures
        exists|dues: Seq<Option<LocalDateTime>>|
            dues_fit(echoes@, dues) && derefs(r@) == overdue_list(echoes@, dues, now),
{
    let mut r: Vec<&Echo> = Vec::new();
    let ghost mut dues: Seq<Option<LocalDateTime>> = Seq::empty();
    let mut i: usize = 0;
    while i < echoes.len()
        invariant
            i <= echoes@.len(),
            dues_fit(echoes@.take(i as int), dues),
            derefs(r@) == overdue_list(echoes@.take(i as int), dues, now),
        decreases echoes@.len() - i,
    {
        let ghost prefix = echoes@.take(i as int);
        let ghost old_dues = dues;
        let keep = match echoes[i].as_task() {
            Some(task) => {
                let late = task.is_overdue(now);
                proof {
                    let due = choose|due: Option<LocalDateTime>|
                        due_outcome(*task, due) && late == overdue_at(*task, due, now);
                    dues = dues.push(due);
                }
                late
            },
            None => {
                proof {
                    dues = dues.push(None);
                }
                false
            },
        };
        proof {
            let next = echoes@.take(i as int + 1);
            assert(next.drop_last() =~= prefix);
            assert(dues.drop_last() =~= old_dues);
            assert forall|k: int| 0 <= k < next.len() implies (#[trigger] next[k].content
                matches EchoContent::TaskEcho(t) ==> due_outcome(t, dues[k])) by {
                if k < i {
                    assert(next[k] == prefix[k]);
                }
            }
        }
        if keep {
            proof {
                lemma_derefs_push(r@, &echoes@[i as int]);
            }
            r.push(&echoes[i]);
        }
        i = i + 1;
    }
    assert(echoes@.take(i as int) =~= echoes@);
    r
}

/// Appends to `r` the tasks among `echoes` of priority `p`, in their order.
fn push_tasks_with<'a>(echoes: &'a [Echo], p: Priority, r: &mut Vec<&'a Echo>)
    ensures
        derefs(final(r)@) == derefs(old(r)@) + echoes_where(echoes@, task_with(p)),
{
    let ghost start = derefs(r@);
    let mut i: usize = 0;
    while i < echoes.len()
        invariant
            i <= echoes@.len(),
            derefs(r@) == start + echoes_where(echoes@.take(i as int), task_with(p)),
        decreases echoes@.len() - i,
    {
        proof {
            lemma_echoes_where_step(echoes@, i as int, task_with(p));
        }
        let keep = match echoes[i].as_task() {
            Some(task) => task.priority == p,
            None => false,
        };
        if keep {
            proof {
                lemma_derefs_push(r@, &echoes@[i as int]);
                assert(start + echoes_where(echoes@.take(i as int), task_with(p)).push(echoes@[i as int])
                    =~= (start + echoes_where(echoes@.take(i as int), task_with(p))).push(
                    echoes@[i as int],
                ));
            }
            r.push(&echoes[i]);
        }
        i = i + 1;
    }
    assert(echoes@.take(i as int) =~= echoes@);
}

/// The tasks among `echoes`, most urgent first; tasks of equal priority keep
/// their order.
pub fn tasks_by_priority(echoes: &[Echo]) -> (r: Vec<&Echo>)
    ensures
        derefs(r@) == by_priority(echoes@),
{
    let mut r: Vec<&Echo> = Vec::new();
    assert(derefs(r@) =~= Seq::<Echo>::empty());
    push_tasks_with(echoes, Priority::Critical, &mut r);
    push_tasks_with(echoes, Priority::High, &mut r);
    push_tasks_with(echoes, Priority::Medium, &mut r);
    push_tasks_with(echoes, Priority::Low, &mut r);
    assert(derefs(r@) =~= by_priority(echoes@));
    r
}

/// The condition of being a task.
pub open spec fn any_task() -> spec_fn(Echo) -> bool {
    |e: Echo| is_task(e)
}

/// The rank of a task echo's priority (-1 for other echoes).
pub open spec fn task_rank(e: Echo) -> int {
    match e.content {
        EchoContent::TaskEcho(t) => t.priority.rank(),
        _ => -1,
    }
}

/// Tasks ranked by priority come most urgent first.
pub proof fn law_by_priority_is_sorted(s: Seq<Echo>)
    ensures
        forall|i: int, j: int|
            0 <= i < j < by_priority(s).len() ==> task_rank(#[trigger] by_priority(s)[i])
                >= task_rank(#[trigger] by_priority(s)[j]),
        forall|i: int| 0 <= i < by_priority(s).len() ==> is_task(#[trigger] by_priority(s)[i]),
{
    let a = echoes_where(s, task_with(Priority::Critical));
    let b = echoes_where(s, task_with(Priority::High));
    let c = echoes_where(s, task_with(Priority::Medium));
    let d = echoes_where(s, task_with(Priority::Low));
    lemma_echoes_where_all(s, task_with(Priority::Critical));
    lemma_echoes_where_all(s, task_with(Priority::High));
    lemma_echoes_where_all(s, task_with(Priority::Medium));
    lemma_echoes_where_all(s, task_with(Priority::Low));
    let r = by_priority(s);
    assert forall|i: int| 0 <= i < r.len() implies (#[trigger] r[i]).content is TaskEcho && (
    task_rank(r[i]) == if i < a.len() {
        3int
    } else if i < a.len() + b.len() {
        2int
    } else if i < a.len() + b.len() + c.len() {
        1int
    } else {
        0int
    }) by {
        if i < a.len() {
            assert(r[i] == a[i]);
            assert(task_with(Priority::Critical)(a[i]));
        } else if i < a.len() + b.len() {
            assert(r[i] == b[i - a.len()]);
            assert(task_with(Priority::High)(b[i - a.len()]));
        } else if i < a.len() + b.len() + c.len() {
            assert(r[i] == c[i - a.len() - b.len()]);
            assert(task_with(Priority::Medium)(c[i - a.len() - b.len()]));
        } else {
            assert(r[i] == d[i - a.len() - b.len() - c.len()]);
            assert(task_with(Priority::Low)(d[i - a.len() - b.len() - c.len()]));
        }
    }
}

/// Ranking by priority loses and adds no task: it rearranges the tasks.
pub proof fn law_by_priority_is_permutation(s: Seq<Echo>)
    ensures
        by_priority(s).to_multiset() == echoes_where(s, any_task()).to_multiset(),
    decreases s.len(),
{
    broadcast use vstd::seq_lib::lemma_multiset_commutative, vstd::seq_lib::to_multiset_build;

    if s.len() == 0 {
        assert(by_priority(s) =~= Seq::<Echo>::empty());
    } else {
        let t = s.drop_last();
        let x = s.last();
        law_by_priority_is_permutation(t);
        let a = echoes_where(t, task_with(Priority::Critical));
        let b = echoes_where(t, task_with(Priority::High));
        let c = echoes_where(t, task_with(Priority::Medium));
        let d = echoes_where(t, task_with(Priority::Low));
        let a2 = echoes_where(s, task_with(Priority::Critical));
        let b2 = echoes_where(s, task_with(Priority::High));
        let c2 = echoes_where(s, task_with(Priority::Medium));
        let d2 = echoes_where(s, task_with(Priority::Low));
        assert(by_priority(t).to_multiset() =~= a.to_multiset().add(b.to_multiset()).add(
            c.to_multiset(),
        ).add(d.to_multiset()));
        assert(by_priority(s).to_multiset() =~= a2.to_multiset().add(b2.to_multiset()).add(
            c2.to_multiset(),
        ).add(d2.to_multiset()));
    }
}

/// A completed task, or one without a due date, is never overdue. An open
/// task with a due date and a due time is overdue exactly when its due moment
/// comes before `now`, even on the same day; one without a due time, exactly
/// when its due day comes before the day of `now`.
pub proof fn law_overdue_is_due_moment_passed(t: TaskData, due: Option<LocalDateTime>, now: LocalDateTime)
    ensures
        t.completed ==> !overdue_at(t, due, now),
        t.due_date is None ==> !overdue_at(t, due, now),
        !t.completed && t.due_date is Some && t.due_time is Some ==> match due {
            Some(dt) => overdue_at(t, due, now) <==> dt.earlier_than(now),
            None => !overdue_at(t, due, now),
        },
        !t.completed && t.due_date is Some && t.due_time is None ==> (overdue_at(t, due, now)
            <==> t.due_date.unwrap().precedes(now.date)),
{
}

/// The next occurrence carries the task over: the same description, due
/// time, priority, estimate, recurrence and checklist texts; it is open, due
/// on its own day, and none of its items is done.
pub proof fn law_spawn_keeps_task_settings(src: Echo, t: TaskData, e: Echo)
    requires
        spawned_from(src, t, e),
    ensures
        e.content matches EchoContent::TaskEcho(n) && {
            &&& n.priority == t.priority
            &&& n.description == t.description
            &&& n.due_time == t.due_time
            &&& n.estimated_minutes == t.estimated_minutes
            &&& n.recurrence == t.recurrence
            &&& !n.completed
            &&& n.completed_at is None
            &&& n.due_date == Some(e.day)
            &&& n.checklist@.len() == t.checklist@.len()
            &&& forall|i: int|
                0 <= i < t.checklist@.len() ==> (#[trigger] n.checklist@[i]).text == t.checklist@[i].text
                    && !n.checklist@[i].done
        },
        e.title == src.title,
        e.tags@ == src.tags@,
{
}

/// The open tasks are exactly the task echoes not completed, whatever their
/// checklists hold: every such echo is listed, and nothing else.
pub proof fn law_open_tasks_are_the_uncompleted_tasks(s: Seq<Echo>)
    ensures
        forall|k: int|
            0 <= k < s.len() && ((#[trigger] s[k]).content matches EchoContent::TaskEcho(t)
                && !t.completed) ==> echoes_where(s, open_task()).contains(s[k]),
        forall|e: Echo|
            #[trigger] echoes_where(s, open_task()).contains(e) ==> (e.content matches EchoContent::TaskEcho(
                t,
            ) && !t.completed),
    decreases s.len(),
{
    lemma_echoes_where_all(s, open_task());
    if s.len() > 0 {
        let t = s.drop_last();
        law_open_tasks_are_the_uncompleted_tasks(t);
        let rest = echoes_where(t, open_task());
        let all = echoes_where(s, open_task());
        assert forall|k: int|
            0 <= k < s.len() && ((#[trigger] s[k]).content matches EchoContent::TaskEcho(x)
                && !x.completed) implies all.contains(s[k]) by {
            if k < s.len() - 1 {
                assert(t[k] == s[k]);
                let j = choose|j: int| 0 <= j < rest.len() && rest[j] == t[k];
                if open_task()(s.last()) {
                    assert(all == rest.push(s.last()));
                    assert(all[j] == rest[j]);
                } else {
                    assert(all == rest);
                }
            } else {
                assert(open_task()(s[k]));
                assert(all == rest.push(s.last()));
                assert(all[all.len() - 1] == s[k]);
            }
        }
        assert forall|e: Echo| #[trigger] all.contains(e) implies (e.content matches EchoContent::TaskEcho(
            x,
        ) && !x.completed) by {
            let j = choose|j: int| 0 <= j < all.len() && all[j] == e;
            assert(open_task()(all[j]));
        }
    } else {
        assert forall|e: Echo| #[trigger] echoes_where(s, open_task()).contains(e) implies (e.content matches EchoContent::TaskEcho(
            x,
        ) && !x.completed) by {
            assert(echoes_where(s, open_task()).len() == 0);
        }
    }
}

/// Overdue tasks are open tasks.
pub proof fn law_overdue_tasks_are_open(
    s: Seq<Echo>,
    dues: Seq<Option<LocalDateTime>>,
    now: LocalDateTime,
)
    ensures
        forall|k: int|
            0 <= k < overdue_list(s, dues, now).len() ==> is_open_task(
                #[trigger] overdue_list(s, dues, now)[k],
            ),
    decreases s.len(),
{
    if s.len() > 0 {
        let rest = overdue_list(s.drop_last(), dues.drop_last(), now);
        law_overdue_tasks_are_open(s.drop_last(), dues.drop_last(), now);
        let all = overdue_list(s, dues, now);
        assert forall|k: int| 0 <= k < all.len() implies is_open_task(#[trigger] all[k]) by {
            if k < rest.len() {
                assert(all[k] == rest[k]);
            }
        }
    }
}

/// Checked items never exceed the items there are.
pub proof fn law_count_done_bounded(s: Seq<ChecklistItem>)
    ensures
        count_done(s) <= s.len(),
        count_done(s) == s.len() <==> all_done(s),
    decreases s.len(),
{
    if s.len() > 0 {
        law_count_done_bounded(s.drop_last());
        if all_done(s) {
            assert(all_done(s.drop_last()));
        }
        if count_done(s) == s.len() {
            assert forall|i: int| 0 <= i < s.len() implies #[trigger] s[i].done by {
                if i < s.len() - 1 {
                    assert(s.drop_last()[i] == s[i]);
                }
            }
        }
    }
}

/// A task's checklist is all done exactly when its progress reads "n of n"
/// with n above zero.
pub proof fn law_all_done_is_full_progress(t: TaskData)
    ensures
        (t.checklist@.len() > 0 && all_done(t.checklist@)) <==> (count_done(t.checklist@)
            == t.checklist@.len() && t.checklist@.len() > 0),
{
    law_count_done_bounded(t.checklist@);
}

/// Flipping the same item twice gives the checklist back.
pub proof fn law_toggle_twice_is_identity(s: Seq<ChecklistItem>, i: int)
    ensures
        toggled(toggled(s, i), i) == s,
{
    if 0 <= i < s.len() {
        assert(toggled(toggled(s, i), i) =~= s);
    }
}

/// The next due date of a recurring task always lies after its due date.
pub proof fn law_next_due_is_later(rec: Recurrence, due: Date, next: Date)
    requires
        due.inv(),
        next.inv(),
        follows(rec, due, next),
    ensures
        due.precedes(next),
{
    match rec {
        Recurrence::Monthly => {},
        _ => {
            if !due.precedes(next) {
                if next.precedes(due) {
                    crate::calendar::lemma_precedes_day_number(next, due);
                } else {
                    assert(next@ == due@);
                }
            }
        },
    }
}

/// The offset from UTC of the local clock at `year`-`month`-`day`, `secs`
/// after midnight, from chrono's `Local.from_local_datetime(..).single()`.
/// Claimed: where there is one, it is a valid offset. Which offset, and
/// whether that local time exists or is ambiguous, rests on the machine's time
/// zone and is not said.
#[verifier::external_body]
fn chrono_local_offset(year: i32, month: u32, day: u32, secs: u32, nanos: u32) -> (r: Option<i32>)
    requires
        crate::calendar::valid_ymd(year as int, month as int, day as int),
        secs < 86400,
        nanos < 1_000_000_000 || (nanos < 2_000_000_000 && secs % 60 == 59),
    ensures
        r matches Some(o) ==> -86400 < o < 86400,
{
    let date = chrono::NaiveDate::from_ymd_opt(year, month, day).unwrap();
    let time = chrono::NaiveTime::from_num_seconds_from_midnight_opt(secs, nanos).unwrap();
    match chrono::Local.from_local_datetime(&date.and_time(time)).single() {
        Some(dt) => Some(dt.offset().local_minus_utc()),
        None => None,
    }
}

} // verus!
