//! Echoes: the entries of the journal, each kept under a day.

use vstd::prelude::*;
use vstd::utf8::encode_utf8;

use super::meditation::MeditationData;
use super::task::TaskData;
use super::workout::WorkoutData;
use super::{PlainData, ECHO_TYPE_MEDITATION, ECHO_TYPE_PLAIN, ECHO_TYPE_TASK, ECHO_TYPE_WORKOUT};
use crate::calendar::{month_name, short_month_name, valid_ymd, weekday_name, Date, LocalDateTime};
use crate::ids::{is_random_uuid, Id};
use crate::storage::{date_text, date_text_of, id_text, space_padded, two_digits, uuid_text, year_text};

verus! {

/// What an echo holds, by kind.
#[derive(Clone, Debug)]
pub enum EchoContent {
    PlainEcho(PlainData),
    MeditationEcho(MeditationData),
    TaskEcho(TaskData),
    WorkoutEcho(WorkoutData),
}

/// One entry of the journal.
#[derive(Clone, Debug)]
pub struct Echo {
    pub id: Id,
    pub day: Date,
    pub section_id: Option<Id>,
    pub title: String,
    pub content: EchoContent,
    pub mood: Option<u8>,
    pub energy: Option<u8>,
    pub pinned: bool,
    pub tags: Vec<String>,
    pub linked_echo_id: Option<Id>,
    pub created_at: LocalDateTime,
    pub updated_at: LocalDateTime,
}

/// The text an echo's kind carries: the markdown of a plain or meditation echo,
/// the description of a task, the notes of a workout (empty where absent).
pub open spec fn content_text(c: EchoContent) -> Seq<char> {
    match c {
        EchoContent::PlainEcho(d) => d.markdown@,
        EchoContent::MeditationEcho(d) => match d.markdown {
            Some(s) => s@,
            None => Seq::empty(),
        },
        EchoContent::TaskEcho(d) => match d.description {
            Some(s) => s@,
            None => Seq::empty(),
        },
        EchoContent::WorkoutEcho(d) => match d.notes {
            Some(s) => s@,
            None => Seq::empty(),
        },
    }
}

/// The name an echo of this kind is shown and stored under.
pub open spec fn content_type_text(c: EchoContent) -> Seq<char> {
    match c {
        EchoContent::PlainEcho(_) => ECHO_TYPE_PLAIN@,
        EchoContent::MeditationEcho(_) => ECHO_TYPE_MEDITATION@,
        EchoContent::TaskEcho(_) => ECHO_TYPE_TASK@,
        EchoContent::WorkoutEcho(_) => ECHO_TYPE_WORKOUT@,
    }
}

/// The line that names an echo's section in its description: empty where it
/// has none.
pub open spec fn section_line(section: Option<Id>) -> Seq<char> {
    match section {
        Some(id) => "\n  Section: "@ + uuid_text(id.0),
        None => Seq::empty(),
    }
}

/// The line a list shows for an echo (see `Echo::preview`).
pub open spec fn preview_text(e: Echo) -> Seq<char> {
    match e.content {
        EchoContent::PlainEcho(p) => p.markdown@,
        EchoContent::MeditationEcho(m) => match m.markdown {
            Some(t) => t@,
            None => "(no notes)"@,
        },
        EchoContent::TaskEcho(_) => e.title@,
        EchoContent::WorkoutEcho(w) => match w.notes {
            Some(t) => t@,
            None => "(no notes)"@,
        },
    }
}

/// The text of a day as "Weekday, Month day, Year", as chrono formats it with
/// the pattern `%A, %B %e, %Y`: English names, the day of the month padded
/// with a space to two characters.
pub open spec fn long_day_text(year: int, month: int, day: int) -> Seq<char> {
    weekday_name(year, month, day) + ", "@ + month_name(month) + " "@ + space_padded(day) + ", "@
        + year_text(year)
}

/// The echoes of `s` for which `keep` holds, in their order.
pub open spec fn echoes_where(s: Seq<Echo>, keep: spec_fn(Echo) -> bool) -> Seq<Echo>
    decreases s.len(),
{
    if s.len() == 0 {
        Seq::empty()
    } else {
        let rest = echoes_where(s.drop_last(), keep);
        if keep(s.last()) {
            rest.push(s.last())
        } else {
            rest
        }
    }
}

/// The echoes a list of references points at.
pub open spec fn derefs(s: Seq<&Echo>) -> Seq<Echo> {
    s.map_values(|e: &Echo| *e)
}

/// Growing a prefix of `s` by one echo grows the kept echoes by at most it.
pub proof fn lemma_echoes_where_step(s: Seq<Echo>, i: int, keep: spec_fn(Echo) -> bool)
    requires
        0 <= i < s.len(),
    ensures
        echoes_where(s.take(i + 1), keep) == if keep(s[i]) {
            echoes_where(s.take(i), keep).push(s[i])
        } else {
            echoes_where(s.take(i), keep)
        },
{
    assert(s.take(i + 1).drop_last() =~= s.take(i));
}

/// Every kept echo satisfies the condition it was kept by.
pub proof fn lemma_echoes_where_all(s: Seq<Echo>, keep: spec_fn(Echo) -> bool)
    ensures
        forall|k: int|
            0 <= k < echoes_where(s, keep).len() ==> keep(#[trigger] echoes_where(s, keep)[k]),
        echoes_where(s, keep).len() <= s.len(),
    decreases s.len(),
{
    if s.len() > 0 {
        lemma_echoes_where_all(s.drop_last(), keep);
    }
}

/// Pushing a reference pushes the echo it points at.
pub proof fn lemma_derefs_push(s: Seq<&Echo>, e: &Echo)
    ensures
        derefs(s.push(e)) == derefs(s).push(*e),
{
    assert(derefs(s.push(e)) =~= derefs(s).push(*e));
}

impl Echo {
    /// What every new echo starts with: a random id, the given day, title and
    /// content, no mood, energy, pin, tags or link, and the same creation and
    /// update time.
    pub open spec fn is_fresh(self, day: Date, title: String, content: EchoContent) -> bool {
        &&& is_random_uuid(self.id.0)
        &&& self.day == day
        &&& self.section_id is None
        &&& self.title == title
        &&& self.content == content
        &&& self.mood is None
        &&& self.energy is None
        &&& !self.pinned
        &&& self.tags@.len() == 0
        &&& self.linked_echo_id is None
        &&& self.created_at == self.updated_at
    }

    /// A new echo with the id `id`, made at `now`: the given day, title and
    /// content, in no section, with no mood, energy, pin, tags or link.
    pub fn new_at(day: Date, title: String, content: EchoContent, id: Id, now: LocalDateTime) -> (r: Echo)
        ensures
            (r == Echo {
                id,
                day,
                section_id: None,
                title,
                content,
                mood: None,
                energy: None,
                pinned: false,
                tags: r.tags,
                linked_echo_id: None,
                created_at: now,
                updated_at: now,
            }),
            r.tags@.len() == 0,
    {
        Echo {
            id,
            day,
            section_id: None,
            title,
            content,
            mood: None,
            energy: None,
            pinned: false,
            tags: Vec::new(),
            linked_echo_id: None,
            created_at: now,
            updated_at: now,
        }
    }

    /// A new echo with a fresh id, made now (see `new_at`).
    pub fn new(day: Date, title: String, content: EchoContent) -> (r: Echo)
        ensures
            r.is_fresh(day, title, content),
    {
        Echo::new_at(day, title, content, Id::new_v4(), LocalDateTime::now())
    }

    /// A new echo in section `section`, with a fresh id, made now: otherwise
    /// as `new` makes it.
    pub fn new_in_section(day: Date, section: Id, title: String, content: EchoContent) -> (r: Echo)
        ensures
            r.section_id == Some(section),
            (Echo { section_id: None, ..r }).is_fresh(day, title, content),
    {
        let mut echo = Echo::new_at(day, title, content, Id::new_v4(), LocalDateTime::now());
        echo.section_id = Some(section);
        echo
    }

    /// The length in bytes (UTF-8) of the text the echo carries.
    pub fn char_count(&self) -> (r: usize)
        ensures
            r == encode_utf8(content_text(self.content)).len() as usize,
    {
        match &self.content {
            EchoContent::PlainEcho(data) => data.markdown.as_str().len(),
            EchoContent::MeditationEcho(data) => match &data.markdown {
                Some(s) => s.as_str().len(),
                None => 0,
            },
            EchoContent::TaskEcho(data) => match &data.description {
                Some(s) => s.as_str().len(),
                None => 0,
            },
            EchoContent::WorkoutEcho(data) => match &data.notes {
                Some(s) => s.as_str().len(),
                None => 0,
            },
        }
    }

    /// The echo as text: its kind and id, then its day, its section (where it
    /// has one) and when it was created on lines of their own.
    pub fn describe(&self) -> (r: String)
        ensures
            r@ == content_type_text(self.content) + " "@ + uuid_text(self.id.0) + "\n  Day: "@
                + date_text(self.day@.0, self.day@.1, self.day@.2) + section_line(self.section_id)
                + "\n  Created: "@
                + created_text(
                self.created_at.date@.0,
                self.created_at.date@.1,
                self.created_at.date@.2,
                self.created_at.time@.0,
            ),
    {
        proof {
            use_type_invariant(&self.created_at.date);
            use_type_invariant(&self.created_at.time);
        }
        let mut s = self.content_type_name().to_owned();
        s.append(" ");
        s.append(id_text(self.id).as_str());
        s.append("\n  Day: ");
        s.append(date_text_of(self.day).as_str());
        match self.section_id {
            Some(section) => {
                s.append("\n  Section: ");
                s.append(id_text(section).as_str());
            },
            None => {},
        }
        s.append("\n  Created: ");
        let t = self.created_at;
        s.append(
            chrono_created_text(
                t.date.year(),
                t.date.month(),
                t.date.day(),
                t.time.num_seconds_from_midnight(),
            ).as_str(),
        );
        s
    }

    /// A line of the echo's text for lists: the markdown of a plain echo, the
    /// title of a task, the notes of a meditation or workout ("(no notes)"
    /// where there are none).
    pub fn preview(&self) -> (r: &str)
        ensures
            r@ == preview_text(*self),
    {
        match &self.content {
            EchoContent::PlainEcho(data) => data.markdown.as_str(),
            EchoContent::MeditationEcho(data) => match &data.markdown {
                Some(m) => m.as_str(),
                None => "(no notes)",
            },
            EchoContent::TaskEcho(_) => self.title.as_str(),
            EchoContent::WorkoutEcho(data) => match &data.notes {
                Some(n) => n.as_str(),
                None => "(no notes)",
            },
        }
    }

    /// Replaces the content and stamps the update time with `now`.
    pub fn update_content_at(&mut self, new_content: EchoContent, now: LocalDateTime)
        ensures
            (*final(self) == Echo { content: new_content, updated_at: now, ..*old(self) }),
    {
        self.content = new_content;
        self.updated_at = now;
    }

    /// Replaces the content and stamps the update time with the present
    /// moment (see `update_content_at`).
    pub fn update_content(&mut self, new_content: EchoContent)
        ensures
            (*final(self) == Echo {
                content: new_content,
                updated_at: final(self).updated_at,
                ..*old(self)
            }),
    {
        self.update_content_at(new_content, LocalDateTime::now());
    }

    /// The day as "Weekday, Month day, Year".
    pub fn display_day(&self) -> (r: String)
        ensures
            r@ == long_day_text(self.day@.0, self.day@.1, self.day@.2),
    {
        proof {
            use_type_invariant(&self.day);
        }
        chrono_long_day(self.day.year(), self.day.month(), self.day.day())
    }

    /// Whether the echo was updated at another moment than it was created.
    pub fn was_modified(&self) -> (r: bool)
        ensures
            r == !self.updated_at.same_moment(self.created_at),
    {
        !self.updated_at.is_same_moment(&self.created_at)
    }

    /// Moves the echo to another day and stamps the update time with `now`.
    pub fn set_day_at(&mut self, new_day: Date, now: LocalDateTime)
        ensures
            (*final(self) == Echo { day: new_day, updated_at: now, ..*old(self) }),
    {
        self.day = new_day;
        self.updated_at = now;
    }

    /// Moves the echo to another day and stamps the update time with the
    /// present moment (see `set_day_at`).
    pub fn set_day(&mut self, new_day: Date)
        ensures
            (*final(self) == Echo { day: new_day, updated_at: final(self).updated_at, ..*old(self) }),
    {
        self.set_day_at(new_day, LocalDateTime::now());
    }

    /// The name the echo's kind is shown and stored under.
    pub fn content_type_name(&self) -> (r: &'static str)
        ensures
            r@ == content_type_text(self.content),
    {
        match &self.content {
            EchoContent::PlainEcho(_) => ECHO_TYPE_PLAIN,
            EchoContent::MeditationEcho(_) => ECHO_TYPE_MEDITATION,
            EchoContent::TaskEcho(_) => ECHO_TYPE_TASK,
            EchoContent::WorkoutEcho(_) => ECHO_TYPE_WORKOUT,
        }
    }
}

/// A local date and time as chrono formats it with `%b %e, %Y at %l:%M %p`:
/// abbreviated month, day (space-padded), year, then the hour on a 12-hour
/// clock (space-padded), the minute and AM or PM.
pub open spec fn created_text(year: int, month: int, day: int, secs: int) -> Seq<char> {
    let h = secs / 3600;
    let h12 = if h % 12 == 0 {
        12
    } else {
        h % 12
    };
    short_month_name(month) + " "@ + space_padded(day) + ", "@ + year_text(year) + " at "@
        + space_padded(h12) + ":"@ + two_digits((secs % 3600) / 60) + if h < 12 {
        " AM"@
    } else {
        " PM"@
    }
}

/// A local date and time formatted by chrono with
/// `format("%b %e, %Y at %l:%M %p")`. Claimed: the text is `created_text` of
/// the date and the seconds since midnight, as chrono's formatting code writes
/// each field; the pattern reads no offset and no fraction of a second.
#[verifier::external_body]
fn chrono_created_text(year: i32, month: u32, day: u32, secs: u32) -> (r: String)
    requires
        valid_ymd(year as int, month as int, day as int),
        secs < 86400,
    ensures
        r@ == created_text(year as int, month as int, day as int, secs as int),
{
    let date = chrono::NaiveDate::from_ymd_opt(year, month, day).unwrap();
    let time = chrono::NaiveTime::from_num_seconds_from_midnight_opt(secs, 0).unwrap();
    date.and_time(time).format("%b %e, %Y at %l:%M %p").to_string()
}

/// A day formatted by chrono as `NaiveDate::format("%A, %B %e, %Y")`. Claimed:
/// the text is `long_day_text` of the day, as chrono's formatting code writes
/// each field.
#[verifier::external_body]
fn chrono_long_day(year: i32, month: u32, day: u32) -> (r: String)
    requires
        valid_ymd(year as int, month as int, day as int),
    ensures
        r@ == long_day_text(year as int, month as int, day as int),
{
    chrono::NaiveDate::from_ymd_opt(year, month, day).unwrap().format("%A, %B %e, %Y").to_string()
}

} // verus!
