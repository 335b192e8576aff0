//! How the journal's values are written to database columns and read back:
//! ids and dates as text, ratings and flags as integers, moments as RFC 3339
//! text.

use chrono::{Datelike, TimeZone, Timelike};
use vstd::prelude::*;

use crate::calendar::{days_from_ce, max_day_number, valid_ymd, Date, LocalDateTime, Time, MIN_YEAR};
use crate::ids::Id;
use crate::model::echo::content_type_text;
use crate::model::{Echo, EchoContent, PlannedExercise, WorkoutTemplate};
use crate::text::decimal;

verus! {

/// The character of a hexadecimal digit, in lower case.
pub open spec fn hex_char(d: int) -> char {
    if d < 10 {
        (48 + d) as char
    } else {
        (87 + d) as char
    }
}

/// The place of the `i`-th character of a hyphenated UUID among its 32 hex
/// digits, most significant first.
pub open spec fn uuid_digit_place(i: int) -> int {
    if i < 8 {
        i
    } else if i < 13 {
        i - 1
    } else if i < 18 {
        i - 2
    } else if i < 23 {
        i - 3
    } else {
        i - 4
    }
}

/// The hyphenated lower-case text of a UUID: 8-4-4-4-12 hex digits.
pub open spec fn uuid_text(v: u128) -> Seq<char> {
    Seq::new(
        36,
        |i: int|
            if i == 8 || i == 13 || i == 18 || i == 23 {
                '-'
            } else {
                hex_char(((v >> ((4 * (31 - uuid_digit_place(i))) as u128)) & 0xfu128) as int)
            },
    )
}

/// What uuid's `Uuid::parse_str` reads from a text, if it reads a UUID.
pub uninterp spec fn uuid_read(text: Seq<char>) -> Option<u128>;

/// Zeros in front of `digits` up to `width` characters.
pub open spec fn zero_padded(digits: Seq<char>, width: nat) -> Seq<char> {
    if digits.len() >= width {
        digits
    } else {
        Seq::new((width - digits.len()) as nat, |i: int| '0') + digits
    }
}

/// A year as text: four digits, with a sign where it lies outside 0 to 9999.
pub open spec fn year_text(y: int) -> Seq<char> {
    if 0 <= y <= 9999 {
        zero_padded(decimal(y as nat), 4)
    } else if y < 0 {
        seq!['-'] + zero_padded(decimal((-y) as nat), 4)
    } else {
        seq!['+'] + zero_padded(decimal(y as nat), 4)
    }
}

/// A number below 100 as two digits.
pub open spec fn two_digits(n: int) -> Seq<char> {
    zero_padded(decimal(n as nat), 2)
}

/// A number below 100 as two characters, a space in front of a single digit.
pub open spec fn space_padded(n: int) -> Seq<char> {
    if n < 10 {
        seq![' '] + decimal(n as nat)
    } else {
        decimal(n as nat)
    }
}

/// A date as text: `YYYY-MM-DD`, the year as `year_text` writes it.
pub open spec fn date_text(y: int, m: int, d: int) -> Seq<char> {
    year_text(y) + seq!['-'] + two_digits(m) + seq!['-'] + two_digits(d)
}

/// What chrono's `NaiveDate::from_str` reads from a text, if it reads a date.
pub uninterp spec fn date_read(text: Seq<char>) -> Option<(int, int, int)>;

/// The fraction of a second as RFC 3339 text: nothing for none, else a dot
/// and three, six or nine digits, the fewest that hold it.
pub open spec fn fraction_text(nanos: int) -> Seq<char> {
    if nanos == 0 {
        Seq::empty()
    } else if nanos % 1_000_000 == 0 {
        seq!['.'] + zero_padded(decimal((nanos / 1_000_000) as nat), 3)
    } else if nanos % 1_000 == 0 {
        seq!['.'] + zero_padded(decimal((nanos / 1_000) as nat), 6)
    } else {
        seq!['.'] + zero_padded(decimal(nanos as nat), 9)
    }
}

/// An offset from UTC in seconds as `+HH:MM` or `-HH:MM`, rounded to the
/// nearest minute.
pub open spec fn offset_text(offset: int) -> Seq<char> {
    let sign = if offset < 0 {
        '-'
    } else {
        '+'
    };
    let a = if offset < 0 {
        -offset
    } else {
        offset
    };
    let minutes = (a + 30) / 60;
    seq![sign] + two_digits(minutes / 60) + seq![':'] + two_digits(minutes % 60)
}

/// A moment on a local clock as RFC 3339 text, as chrono's
/// `DateTime::to_rfc3339` writes it: the local date, `T`, the local time
/// (a leap second as second 60) with its fraction, then the offset.
pub open spec fn moment_text(
    y: int,
    m: int,
    d: int,
    secs: int,
    nanos: int,
    offset: int,
) -> Seq<char> {
    let leap = nanos >= 1_000_000_000;
    let fraction = if leap {
        nanos - 1_000_000_000
    } else {
        nanos
    };
    let second = if leap {
        secs % 60 + 1
    } else {
        secs % 60
    };
    date_text(y, m, d) + seq!['T'] + two_digits(secs / 3600) + seq![':'] + two_digits(
        (secs % 3600) / 60,
    ) + seq![':'] + two_digits(second) + fraction_text(fraction) + offset_text(offset)
}

/// The integer a rating (mood, energy) is stored as.
pub fn rating_to_column(v: Option<u8>) -> (r: Option<i64>)
    ensures
        r == match v {
            Some(x) => Some(x as i64),
            None => None::<i64>,
        },
{
    match v {
        Some(x) => Some(x as i64),
        None => None,
    }
}

/// The rating a stored integer stands for: its lowest byte, as a cast to `u8`
/// gives it.
pub open spec fn rating_read(v: Option<i64>) -> Option<u8> {
    match v {
        Some(x) => Some((x % 256) as u8),
        None => None,
    }
}

/// The rating a stored integer stands for (see `rating_read`).
pub fn rating_from_column(v: Option<i64>) -> (r: Option<u8>)
    ensures
        r == rating_read(v),
{
    match v {
        Some(x) => {
            let low: i64 = x % 256;
            let byte: i64 = if low < 0 {
                low + 256
            } else {
                low
            };
            Some(byte as u8)
        },
        None => None,
    }
}

/// The integer a flag is stored as: 1 for true, 0 for false.
pub fn flag_to_column(b: bool) -> (r: i64)
    ensures
        r == if b {
            1int
        } else {
            0int
        },
{
    if b {
        1
    } else {
        0
    }
}

/// The flag a stored integer stands for: anything but 0 is true.
pub fn flag_from_column(v: i64) -> (r: bool)
    ensures
        r == (v != 0),
{
    v != 0
}

/// A stored flag reads back as the flag, and a stored rating as the rating.
pub proof fn law_columns_round_trip(b: bool, v: Option<u8>)
    ensures
        (if b {
            1i64
        } else {
            0i64
        } != 0) == b,
        rating_read(rating_column(v)) == v,
{
}

/// The text an id is stored as: the hyphenated UUID, which reads back as the
/// id.
pub fn id_text(id: Id) -> (r: String)
    ensures
        r@ == uuid_text(id.0),
        uuid_read(r@) == Some(id.0),
{
    uuid_hyphenated(id.0)
}

/// The id a stored text stands for, if it reads as a UUID.
pub fn parse_id(text: &str) -> (r: Option<Id>)
    ensures
        r is Some <==> uuid_read(text@) is Some,
        r matches Some(id) ==> uuid_read(text@) == Some(id.0),
{
    match uuid_parse(text) {
        Some(v) => Some(Id(v)),
        None => None,
    }
}

/// The text a date is stored as: `YYYY-MM-DD`, which reads back as the date.
pub fn date_text_of(date: Date) -> (r: String)
    ensures
        r@ == date_text(date@.0, date@.1, date@.2),
        date_read(r@) == Some(date@),
{
    proof {
        use_type_invariant(&date);
    }
    chrono_date_text(date.year(), date.month(), date.day())
}

/// The date a stored text stands for, if chrono reads it as one.
pub fn parse_date(text: &str) -> (r: Option<Date>)
    ensures
        r is Some <==> date_read(text@) is Some,
        r matches Some(d) ==> date_read(text@) == Some(d@),
{
    match chrono_date_parse(text) {
        Some((y, m, d)) => Date::from_ymd_opt(y, m, d),
        None => None,
    }
}

/// The text a moment is stored as (RFC 3339), which reads back as the same
/// instant where the offset is a whole number of minutes (the text rounds it
/// to the minute).
pub fn moment_text_of(t: LocalDateTime) -> (r: String)
    requires
        writable_moment(t),
    ensures
        t.offset_secs % 60 == 0 ==> moment_instant(r@) == Some((t.utc_secs(), t.time@.1)),
        r@ == moment_text(
            t.date@.0,
            t.date@.1,
            t.date@.2,
            t.time@.0,
            t.time@.1,
            t.offset_secs as int,
        ),
{
    proof {
        use_type_invariant(&t.date);
        use_type_invariant(&t.time);
    }
    chrono_moment_text(
        t.date.year(),
        t.date.month(),
        t.date.day(),
        t.time.num_seconds_from_midnight(),
        t.time.nanosecond(),
        t.offset_secs,
    )
}

/// The instant chrono's `DateTime` parser reads from a text, as seconds from
/// the start of day 0 in UTC and nanoseconds; `None` where it reads none.
pub uninterp spec fn moment_instant(text: Seq<char>) -> Option<(int, int)>;

/// Whether `p` is what chrono's parser may hand back for a text, as local
/// date, seconds since local midnight, nanoseconds and offset: parts exactly
/// when the text names an instant, and parts whose local date and time less
/// the offset is that instant.
pub open spec fn moment_parts_read(text: Seq<char>, p: Option<(i32, u32, u32, u32, u32, i32)>) -> bool {
    &&& p is Some <==> moment_instant(text) is Some
    &&& p matches Some(q) ==> moment_instant(text) == Some(
        (days_from_ce(q.0 as int, q.1 as int, q.2 as int) * 86400 + q.3 - q.5, q.4 as int),
    )
}

/// Whether local parts make a moment the library holds: a valid day of a
/// supported year, a valid time of day (a fraction past one second only in
/// the last second of a minute) and an offset within a day.
pub open spec fn parts_fit(q: (i32, u32, u32, u32, u32, i32)) -> bool {
    &&& valid_ymd(q.0 as int, q.1 as int, q.2 as int)
    &&& q.3 < 86400
    &&& (q.4 < 1_000_000_000 || (q.4 < 2_000_000_000 && q.3 % 60 == 59))
    &&& -86400 < q.5 < 86400
}

/// Whether `r` is the moment local parts `p` make: none without parts or
/// where they do not fit, else the moment with that date, time and offset.
pub open spec fn moment_of(p: Option<(i32, u32, u32, u32, u32, i32)>, r: Option<LocalDateTime>) -> bool {
    match p {
        Some(q) => if parts_fit(q) {
            r matches Some(t) && t.date@ == (q.0 as int, q.1 as int, q.2 as int) && t.time@ == (
                q.3 as int,
                q.4 as int,
            ) && t.offset_secs == q.5
        } else {
            r is None
        },
        None => r is None,
    }
}

/// The moment that local date, time and offset parts make (see `moment_of`).
pub fn moment_from_parts(p: Option<(i32, u32, u32, u32, u32, i32)>) -> (r: Option<LocalDateTime>)
    ensures
        moment_of(p, r),
{
    match p {
        Some((y, m, d, secs, nanos, offset)) => {
            let date = match Date::from_ymd_opt(y, m, d) {
                Some(date) => date,
                None => {
                    return None;
                },
            };
            let time = match Time::from_parts(secs, nanos) {
                Some(time) => time,
                None => {
                    return None;
                },
            };
            if offset <= -86400 || offset >= 86400 {
                return None;
            }
            Some(LocalDateTime { date, time, offset_secs: offset })
        },
        None => None,
    }
}

/// The moment a stored text stands for, on this machine's local clock, if
/// chrono reads it as a date and time with an offset: the same instant, at
/// whatever offset the local time zone has then. It is the moment that the
/// local parts chrono hands back make; where those parts fall outside what
/// the library holds (a local date past the supported years, a leap-second
/// fraction that an offset of odd seconds moved off the last second of a
/// minute), there is none.
pub fn parse_moment(text: &str) -> (r: Option<LocalDateTime>)
    ensures
        moment_instant(text@) is None ==> r is None,
        r matches Some(t) ==> -86400 < t.offset_secs < 86400 && moment_instant(text@) == Some(
            (t.utc_secs(), t.time@.1),
        ),
        exists|p: Option<(i32, u32, u32, u32, u32, i32)>| moment_parts_read(text@, p) && moment_of(p, r),
{
    let p = chrono_moment_parse(text);
    let r = moment_from_parts(p);
    assert(moment_parts_read(text@, p) && moment_of(p, r));
    r
}

/// The column of a stored row that does not read back as what it holds.
#[derive(Debug, Clone, Copy, PartialEq, Eq, Structural)]
pub enum Column {
    Id,
    Day,
    SectionId,
    CreatedAt,
    UpdatedAt,
    Content,
    Tags,
    LinkedEchoId,
    ProgramId,
    Exercises,
}

/// The id an optional stored text stands for: `Some(None)` for no text,
/// `None` where the text is not a UUID.
pub open spec fn optional_id_read(text: Option<Seq<char>>) -> Option<Option<Id>> {
    match text {
        None => Some(None),
        Some(t) => match uuid_read(t) {
            Some(v) => Some(Some(Id(v))),
            None => None,
        },
    }
}

/// The first column of an echo row, in the order they are read, that does not
/// read back; `None` where all do. The content and the tags come as what
/// their JSON read as, the moments as what `parse_moment` gave.
pub open spec fn echo_row_fault(
    id: Seq<char>,
    day: Seq<char>,
    section_id: Option<Seq<char>>,
    content_read: bool,
    tags_read: bool,
    linked_echo_id: Option<Seq<char>>,
    created_read: bool,
    updated_read: bool,
) -> Option<Column> {
    if uuid_read(id) is None {
        Some(Column::Id)
    } else if date_read(day) is None {
        Some(Column::Day)
    } else if optional_id_read(section_id) is None {
        Some(Column::SectionId)
    } else if !created_read {
        Some(Column::CreatedAt)
    } else if !updated_read {
        Some(Column::UpdatedAt)
    } else if !content_read {
        Some(Column::Content)
    } else if !tags_read {
        Some(Column::Tags)
    } else if optional_id_read(linked_echo_id) is None {
        Some(Column::LinkedEchoId)
    } else {
        None
    }
}

/// The view of an optional owned text.
pub open spec fn optional_text(t: Option<String>) -> Option<Seq<char>> {
    match t {
        Some(s) => Some(s@),
        None => None,
    }
}

fn parse_optional_id(text: Option<String>) -> (r: Option<Option<Id>>)
    ensures
        r == optional_id_read(optional_text(text)),
{
    match text {
        None => Some(None),
        Some(s) => match parse_id(s.as_str()) {
            Some(id) => Some(Some(id)),
            None => None,
        },
    }
}

/// Whether `r` is what an echo row with these columns reads as: the first
/// column that does not read (see `echo_row_fault`) as the error, or else the
/// echo they hold.
pub open spec fn reads_as(
    id: Seq<char>,
    day: Seq<char>,
    section_id: Option<Seq<char>>,
    title: String,
    content: Option<EchoContent>,
    mood: Option<i64>,
    energy: Option<i64>,
    pinned: i64,
    tags: Option<Vec<String>>,
    linked_echo_id: Option<Seq<char>>,
    created_at: Option<LocalDateTime>,
    updated_at: Option<LocalDateTime>,
    r: Result<Echo, Column>,
) -> bool {
    let fault = echo_row_fault(
        id,
        day,
        section_id,
        content is Some,
        tags is Some,
        linked_echo_id,
        created_at is Some,
        updated_at is Some,
    );
    match r {
        Err(c) => fault == Some(c),
        Ok(e) => {
            &&& fault is None
            &&& e.id == Id(uuid_read(id).unwrap())
            &&& e.day@ == date_read(day).unwrap()
            &&& Some(e.section_id) == optional_id_read(section_id)
            &&& e.title == title
            &&& e.content == content.unwrap()
            &&& e.mood == rating_read(mood)
            &&& e.energy == rating_read(energy)
            &&& e.pinned == (pinned != 0)
            &&& e.tags == tags.unwrap()
            &&& Some(e.linked_echo_id) == optional_id_read(linked_echo_id)
            &&& e.created_at == created_at.unwrap()
            &&& e.updated_at == updated_at.unwrap()
        },
    }
}

/// The columns an echo is stored in, but for its content and tags (stored as
/// JSON): the id, day, section id and linked id as text, the kind's name, the ratings and
/// the pin as integers, and the two moments as RFC 3339 text.
#[derive(Clone, Debug)]
pub struct EchoColumns {
    pub id: String,
    pub day: String,
    pub section_id: Option<String>,
    pub title: String,
    pub content_type: String,
    pub mood: Option<i64>,
    pub energy: Option<i64>,
    pub pinned: i64,
    pub linked_echo_id: Option<String>,
    pub created_at: String,
    pub updated_at: String,
}

/// Whether a moment is one chrono's `DateTime` can hold, and so write: its
/// offset within a day, and the moment in UTC between the start of the first
/// supported day and the end of the last.
pub open spec fn writable_moment(t: LocalDateTime) -> bool {
    &&& -86400 < t.offset_secs < 86400
    &&& days_from_ce(MIN_YEAR as int, 1, 1) * 86400 <= t.utc_secs() < (max_day_number() + 1) * 86400
}

/// Whether a moment is one chrono can write (see `writable_moment`).
pub fn is_writable_moment(t: &LocalDateTime) -> (r: bool)
    ensures
        r == writable_moment(*t),
{
    let first: i64 = -95746129 * 86400;
    let end: i64 = 95745400 * 86400;
    proof {
        assert(days_from_ce(MIN_YEAR as int, 1, 1) == -95746129);
        assert(max_day_number() == 95745399);
    }
    let utc: i64 = t.utc_seconds();
    -86400 < t.offset_secs && t.offset_secs < 86400 && first <= utc && utc < end
}

/// Whether `row` holds echo `e` as `echo_columns` writes it, each text
/// reading back as what it was written from (a moment as the same instant,
/// where its offset is a whole number of minutes).
pub open spec fn stored_as(row: EchoColumns, e: Echo) -> bool {
    &&& row.id@ == uuid_text(e.id.0)
    &&& uuid_read(row.id@) == Some(e.id.0)
    &&& row.day@ == date_text(e.day@.0, e.day@.1, e.day@.2)
    &&& date_read(row.day@) == Some(e.day@)
    &&& match e.section_id {
        Some(c) => row.section_id matches Some(t) && t@ == uuid_text(c.0) && uuid_read(t@) == Some(
            c.0,
        ),
        None => row.section_id is None,
    }
    &&& row.title == e.title
    &&& row.content_type@ == content_type_text(e.content)
    &&& row.mood == rating_column(e.mood)
    &&& row.energy == rating_column(e.energy)
    &&& row.pinned == if e.pinned {
        1i64
    } else {
        0i64
    }
    &&& match e.linked_echo_id {
        Some(l) => row.linked_echo_id matches Some(t) && t@ == uuid_text(l.0) && uuid_read(t@) == Some(
            l.0,
        ),
        None => row.linked_echo_id is None,
    }
    &&& row.created_at@ == moment_text(
        e.created_at.date@.0,
        e.created_at.date@.1,
        e.created_at.date@.2,
        e.created_at.time@.0,
        e.created_at.time@.1,
        e.created_at.offset_secs as int,
    )
    &&& row.updated_at@ == moment_text(
        e.updated_at.date@.0,
        e.updated_at.date@.1,
        e.updated_at.date@.2,
        e.updated_at.time@.0,
        e.updated_at.time@.1,
        e.updated_at.offset_secs as int,
    )
    &&& e.created_at.offset_secs % 60 == 0 ==> moment_instant(row.created_at@) == Some(
        (e.created_at.utc_secs(), e.created_at.time@.1),
    )
    &&& e.updated_at.offset_secs % 60 == 0 ==> moment_instant(row.updated_at@) == Some(
        (e.updated_at.utc_secs(), e.updated_at.time@.1),
    )
}

/// The integer column of a rating.
pub open spec fn rating_column(v: Option<u8>) -> Option<i64> {
    match v {
        Some(x) => Some(x as i64),
        None => None,
    }
}

/// The columns an echo is stored in (see `EchoColumns`).
pub fn echo_columns(echo: &Echo) -> (row: EchoColumns)
    requires
        writable_moment(echo.created_at),
        writable_moment(echo.updated_at),
    ensures
        stored_as(row, *echo),
{
    EchoColumns {
        id: id_text(echo.id),
        day: date_text_of(echo.day),
        section_id: match echo.section_id {
            Some(c) => Some(id_text(c)),
            None => None,
        },
        title: echo.title.clone(),
        content_type: echo.content_type_name().to_owned(),
        mood: rating_to_column(echo.mood),
        energy: rating_to_column(echo.energy),
        pinned: flag_to_column(echo.pinned),
        linked_echo_id: match echo.linked_echo_id {
            Some(l) => Some(id_text(l)),
            None => None,
        },
        created_at: moment_text_of(echo.created_at),
        updated_at: moment_text_of(echo.updated_at),
    }
}

/// An echo stored in columns reads back as the same echo, given that its
/// content, tags and moments read back as they were written.
pub proof fn law_stored_echo_reads_back(e: Echo, row: EchoColumns, r: Result<Echo, Column>)
    requires
        stored_as(row, e),
        reads_as(
            row.id@,
            row.day@,
            optional_text(row.section_id),
            row.title,
            Some(e.content),
            row.mood,
            row.energy,
            row.pinned,
            Some(e.tags),
            optional_text(row.linked_echo_id),
            Some(e.created_at),
            Some(e.updated_at),
            r,
        ),
    ensures
        r == Ok::<Echo, Column>(e),
{
    let back = r->Ok_0;
    Date::lemma_view_injective(back.day, e.day);
    assert(back.mood == e.mood);
    assert(back.energy == e.energy);
    assert(back.linked_echo_id == e.linked_echo_id);
    assert(back.section_id == e.section_id);
}

/// The echo a stored row holds, from its columns: the id, day, section id and
/// linked id as text, the content and tags as their JSON read (`None` where it did not),
/// the ratings and the flag as integers, and the two moments as
/// `parse_moment` read them. The first column that does not read, in the
/// order of `echo_row_fault`, is the error.
pub fn echo_from_columns(
    id: &str,
    day: &str,
    section_id: Option<String>,
    title: String,
    content: Option<EchoContent>,
    mood: Option<i64>,
    energy: Option<i64>,
    pinned: i64,
    tags: Option<Vec<String>>,
    linked_echo_id: Option<String>,
    created_at: Option<LocalDateTime>,
    updated_at: Option<LocalDateTime>,
) -> (r: Result<Echo, Column>)
    ensures
        reads_as(
            id@,
            day@,
            optional_text(section_id),
            title,
            content,
            mood,
            energy,
            pinned,
            tags,
            optional_text(linked_echo_id),
            created_at,
            updated_at,
            r,
        ),
{
    let the_id = match parse_id(id) {
        Some(v) => v,
        None => {
            return Err(Column::Id);
        },
    };
    let the_day = match parse_date(day) {
        Some(d) => d,
        None => {
            return Err(Column::Day);
        },
    };
    let section = match parse_optional_id(section_id) {
        Some(c) => c,
        None => {
            return Err(Column::SectionId);
        },
    };
    let created = match created_at {
        Some(t) => t,
        None => {
            return Err(Column::CreatedAt);
        },
    };
    let updated = match updated_at {
        Some(t) => t,
        None => {
            return Err(Column::UpdatedAt);
        },
    };
    let the_content = match content {
        Some(c) => c,
        None => {
            return Err(Column::Content);
        },
    };
    let the_tags = match tags {
        Some(t) => t,
        None => {
            return Err(Column::Tags);
        },
    };
    let linked = match parse_optional_id(linked_echo_id) {
        Some(l) => l,
        None => {
            return Err(Column::LinkedEchoId);
        },
    };
    Ok(
        Echo {
            id: the_id,
            day: the_day,
            section_id: section,
            title,
            content: the_content,
            mood: rating_from_column(mood),
            energy: rating_from_column(energy),
            pinned: flag_from_column(pinned),
            tags: the_tags,
            linked_echo_id: linked,
            created_at: created,
            updated_at: updated,
        },
    )
}

/// The first column of a workout template row, in the order they are read,
/// that does not read back; `None` where all do.
pub open spec fn template_row_fault(
    id: Seq<char>,
    program_id: Option<Seq<char>>,
    exercises_read: bool,
) -> Option<Column> {
    if uuid_read(id) is None {
        Some(Column::Id)
    } else if !exercises_read {
        Some(Column::Exercises)
    } else if optional_id_read(program_id) is None {
        Some(Column::ProgramId)
    } else {
        None
    }
}

/// The workout template a stored row holds, from its columns: the id and the
/// program id as text, the exercises as their JSON read (`None` where it did
/// not). The first column that does not read, in the order of
/// `template_row_fault`, is the error.
pub fn template_from_columns(
    id: &str,
    name: String,
    program_id: Option<String>,
    sort_order: i32,
    exercises: Option<Vec<PlannedExercise>>,
) -> (r: Result<WorkoutTemplate, Column>)
    ensures
        ({
            let fault = template_row_fault(id@, optional_text(program_id), exercises is Some);
            match r {
                Err(c) => fault == Some(c),
                Ok(t) => {
                    &&& fault is None
                    &&& t.id == Id(uuid_read(id@).unwrap())
                    &&& t.name == name
                    &&& Some(t.program_id) == optional_id_read(optional_text(program_id))
                    &&& t.sort_order == sort_order
                    &&& t.exercises == exercises.unwrap()
                },
            }
        }),
{
    let the_id = match parse_id(id) {
        Some(v) => v,
        None => {
            return Err(Column::Id);
        },
    };
    let the_exercises = match exercises {
        Some(e) => e,
        None => {
            return Err(Column::Exercises);
        },
    };
    let program = match parse_optional_id(program_id) {
        Some(p) => p,
        None => {
            return Err(Column::ProgramId);
        },
    };
    Ok(WorkoutTemplate { id: the_id, name, program_id: program, sort_order, exercises: the_exercises })
}

/// The schema versions still to apply to a database at version `current`,
/// given `available` migrations numbered from 1: those above `current`, in
/// order.
pub fn pending_versions(current: i32, available: u16) -> (r: Vec<i32>)
    ensures
        r@.len() == if current < 0 {
            available as int
        } else if current < available {
            available - current
        } else {
            0
        },
        forall|i: int|
            0 <= i < r@.len() ==> #[trigger] r@[i] == available - r@.len() + i + 1,
{
    let mut r: Vec<i32> = Vec::new();
    let mut v: u32 = 1;
    while v <= available as u32
        invariant
            1 <= v <= available as int + 1,
            r@.len() == if current < 0 {
                v - 1
            } else if current < v - 1 {
                v - 1 - current
            } else {
                0
            },
            forall|i: int| 0 <= i < r@.len() ==> #[trigger] r@[i] == v - r@.len() + i,
        decreases available + 1 - v,
    {
        if v as i32 > current {
            r.push(v as i32);
        }
        v = v + 1;
    }
    r
}

/// The hyphenated text of a UUID, from uuid's `Display` for `Uuid`. Claimed:
/// the 32 lower-case hex digits of the value in groups of 8-4-4-4-12, as the
/// uuid source writes them; and, as `Uuid::parse_str` documents that it reads
/// every format the crate writes, the text reads back as the value.
#[verifier::external_body]
fn uuid_hyphenated(v: u128) -> (r: String)
    ensures
        r@ == uuid_text(v),
        uuid_read(r@) == Some(v),
{
    uuid::Uuid::from_u128(v).to_string()
}

/// The UUID uuid's `Uuid::parse_str` reads from a text. Claimed: the result is
/// `uuid_read` of the text, a name for what that parser accepts.
#[verifier::external_body]
fn uuid_parse(text: &str) -> (r: Option<u128>)
    ensures
        r == uuid_read(text@),
{
    match uuid::Uuid::parse_str(text) {
        Ok(u) => Some(u.as_u128()),
        Err(_) => None,
    }
}

/// A date written by chrono's `Display` for `NaiveDate`. Claimed: the text
/// `date_text` gives, as the chrono source writes it (four-digit year,
/// signed outside 0 to 9999, two-digit month and day); and, as chrono
/// documents that `Display` output "can be readily parsed", `NaiveDate`'s
/// `FromStr` reads it back as the same date.
#[verifier::external_body]
fn chrono_date_text(year: i32, month: u32, day: u32) -> (r: String)
    requires
        valid_ymd(year as int, month as int, day as int),
    ensures
        r@ == date_text(year as int, month as int, day as int),
        date_read(r@) == Some((year as int, month as int, day as int)),
{
    chrono::NaiveDate::from_ymd_opt(year, month, day).unwrap().to_string()
}

/// The date chrono's `NaiveDate::from_str` reads from a text, as year, month
/// and day. Claimed: the result is `date_read` of the text, a name for what
/// that parser accepts, and it is a valid date (chrono makes no other).
#[verifier::external_body]
fn chrono_date_parse(text: &str) -> (r: Option<(i32, u32, u32)>)
    ensures
        r is Some <==> date_read(text@) is Some,
        r matches Some(t) ==> date_read(text@) == Some((t.0 as int, t.1 as int, t.2 as int))
            && valid_ymd(t.0 as int, t.1 as int, t.2 as int),
{
    match text.parse::<chrono::NaiveDate>() {
        Ok(d) => Some((d.year(), d.month(), d.day())),
        Err(_) => None,
    }
}

/// A moment written by chrono's `DateTime::to_rfc3339`, given its local date,
/// time and offset. Claimed: the text is `moment_text` of them, as chrono's
/// `write_rfc3339` writes it; and, as chrono's `DateTime` parser accepts the
/// RFC 3339 it writes, the text reads back as the same instant where the
/// offset is a whole number of minutes (the text rounds it to the minute).
#[verifier::external_body]
fn chrono_moment_text(
    year: i32,
    month: u32,
    day: u32,
    secs: u32,
    nanos: u32,
    offset: i32,
) -> (r: String)
    requires
        valid_ymd(year as int, month as int, day as int),
        secs < 86400,
        nanos < 1_000_000_000 || (nanos < 2_000_000_000 && secs % 60 == 59),
        -86400 < offset < 86400,
        days_from_ce(MIN_YEAR as int, 1, 1) * 86400 <= days_from_ce(
            year as int,
            month as int,
            day as int,
        ) * 86400 + secs - offset < (max_day_number() + 1) * 86400,
    ensures
        r@ == moment_text(
            year as int,
            month as int,
            day as int,
            secs as int,
            nanos as int,
            offset as int,
        ),
        offset % 60 == 0 ==> moment_instant(r@) == Some(
            (
                days_from_ce(year as int, month as int, day as int) * 86400 + secs - offset,
                nanos as int,
            ),
        ),
{
    let date = chrono::NaiveDate::from_ymd_opt(year, month, day).unwrap();
    let time = chrono::NaiveTime::from_num_seconds_from_midnight_opt(secs, nanos).unwrap();
    let zone = chrono::FixedOffset::east_opt(offset).unwrap();
    zone.from_local_datetime(&date.and_time(time)).unwrap().to_rfc3339()
}

/// The moment chrono's `DateTime<Local>::from_str` reads from a text, as local
/// date, seconds since local midnight, nanoseconds and offset. Which local
/// clock it is put on rests on the machine's time zone, and nothing is
/// claimed of that; claimed: it reads a moment exactly when the text names an
/// instant (`moment_instant`, a name for what chrono's parser reads), and the
/// local date and time less the offset is that instant.
#[verifier::external_body]
fn chrono_moment_parse(text: &str) -> (r: Option<(i32, u32, u32, u32, u32, i32)>)
    ensures
        r is Some <==> moment_instant(text@) is Some,
        r matches Some(p) ==> moment_instant(text@) == Some(
            (
                days_from_ce(p.0 as int, p.1 as int, p.2 as int) * 86400 + p.3 - p.5,
                p.4 as int,
            ),
        ),
{
    match text.parse::<chrono::DateTime<chrono::Local>>() {
        Ok(t) => Some((
            t.year(),
            t.month(),
            t.day(),
            t.num_seconds_from_midnight(),
            t.nanosecond(),
            t.offset().local_minus_utc(),
        )),
        Err(_) => None,
    }
}

} // verus!
