//! Seeds: intentions to grow, of being or of doing, planted on a day.

use vstd::prelude::*;

use crate::calendar::{Date, LocalDateTime};
use crate::ids::{is_random_uuid, Id};
use crate::text::str_eq;

verus! {

/// Whether a seed is about being or about doing.
#[derive(Debug, Clone, Copy, PartialEq, Eq, Hash, Structural)]
pub enum SeedKind {
    Being,
    Doing,
}

/// Text that names no seed kind.
#[derive(Debug, Clone)]
pub struct ParseSeedKindError(String);

/// An intention, planted on a day and held until a day or for good.
#[derive(Debug, Clone, PartialEq, Eq)]
pub struct Seed {
    pub id: Id,
    pub text: String,
    pub kind: SeedKind,
    pub planted_on: Date,
    pub until: Option<Date>,
    pub archived: bool,
    pub created_at: LocalDateTime,
    pub updated_at: LocalDateTime,
}

/// The word a seed kind is written as.
pub open spec fn kind_word(k: SeedKind) -> Seq<char> {
    match k {
        SeedKind::Being => "being"@,
        SeedKind::Doing => "doing"@,
    }
}

/// The seed kind a word names, if any.
pub open spec fn kind_named(s: Seq<char>) -> Option<SeedKind> {
    if s == "being"@ {
        Some(SeedKind::Being)
    } else if s == "doing"@ {
        Some(SeedKind::Doing)
    } else {
        None
    }
}

impl ParseSeedKindError {
    /// The text that was not a seed kind.
    pub closed spec fn rejected_text(self) -> Seq<char> {
        self.0@
    }

    /// The text that named no seed kind.
    pub fn text(&self) -> (r: &str)
        ensures
            r@ == self.rejected_text(),
    {
        self.0.as_str()
    }

    /// The error as text: "invalid seed kind: " and the rejected text.
    pub fn describe(&self) -> (r: String)
        ensures
            r@ == "invalid seed kind: "@ + self.rejected_text(),
    {
        let mut s = "invalid seed kind: ".to_owned();
        s.append(self.0.as_str());
        s
    }
}

impl SeedKind {
    /// The word this kind is written as: "being" or "doing".
    pub fn as_str(&self) -> (r: &'static str)
        ensures
            r@ == kind_word(*self),
    {
        match self {
            SeedKind::Being => "being",
            SeedKind::Doing => "doing",
        }
    }

    /// The kind that `s` names; an error holding `s` for any other text.
    pub fn parse(s: &str) -> (r: Result<SeedKind, ParseSeedKindError>)
        ensures
            r is Ok <==> kind_named(s@) is Some,
            r matches Ok(k) ==> kind_named(s@) == Some(k),
            r matches Err(e) ==> e.rejected_text() == s@,
    {
        if str_eq(s, "being") {
            Ok(SeedKind::Being)
        } else if str_eq(s, "doing") {
            Ok(SeedKind::Doing)
        } else {
            Err(ParseSeedKindError(s.to_owned()))
        }
    }
}

impl std::str::FromStr for SeedKind {
    type Err = ParseSeedKindError;

    fn from_str(s: &str) -> (r: Result<SeedKind, ParseSeedKindError>)
        ensures
            r is Ok <==> kind_named(s@) is Some,
            r matches Ok(k) ==> kind_named(s@) == Some(k),
            r matches Err(e) ==> e.rejected_text() == s@,
    {
        SeedKind::parse(s)
    }
}

/// Every kind reads back from the word it is written as.
pub proof fn law_seed_kind_round_trip(k: SeedKind)
    ensures
        kind_named(kind_word(k)) == Some(k),
{
    reveal_strlit("being");
    reveal_strlit("doing");
    assert("being"@ != "doing"@) by {
        assert("being"@[0] != "doing"@[0]);
    }
}

impl Seed {
    /// A new seed with the id `id`, made at `now`, not archived.
    pub fn new_at(
        text: String,
        kind: SeedKind,
        planted_on: Date,
        until: Option<Date>,
        id: Id,
        now: LocalDateTime,
    ) -> (r: Seed)
        ensures
            (r == Seed {
                id,
                text,
                kind,
                planted_on,
                until,
                archived: false,
                created_at: now,
                updated_at: now,
            }),
    {
        Seed { id, text, kind, planted_on, until, archived: false, created_at: now, updated_at: now }
    }

    /// A new seed with a fresh id, not archived, made now (see `new_at`).
    pub fn new(text: String, kind: SeedKind, planted_on: Date, until: Option<Date>) -> (r: Seed)
        ensures
            is_random_uuid(r.id.0),
            r.text == text,
            r.kind == kind,
            r.planted_on == planted_on,
            r.until == until,
            !r.archived,
            r.created_at == r.updated_at,
    {
        Seed::new_at(text, kind, planted_on, until, Id::new_v4(), LocalDateTime::now())
    }
}

} // verus!
