//! Meditation echoes: sittings with a length and, if noted, the mood before
//! and after.

use vstd::prelude::*;

use super::echo::{Echo, EchoContent};
use crate::calendar::Date;

verus! {

/// The content of a meditation echo.
#[derive(Clone, Debug)]
pub struct MeditationData {
    pub markdown: Option<String>,
    pub duration_minutes: u32,
    pub mood_before: Option<u8>,
    pub mood_after: Option<u8>,
}

/// The value a mood byte has when read as a signed byte.
pub open spec fn signed_byte(v: u8) -> int {
    if v < 128 {
        v as int
    } else {
        v - 256
    }
}

/// The change of mood over a sitting, the moods read as signed bytes; `None`
/// unless both moods are noted.
pub open spec fn mood_change(m: MeditationData) -> Option<int> {
    match (m.mood_before, m.mood_after) {
        (Some(before), Some(after)) => Some(signed_byte(after) - signed_byte(before)),
        _ => None,
    }
}

/// Whether the change of mood fits in a signed byte (where it does not, the
/// subtraction overflows).
pub open spec fn mood_change_fits(m: MeditationData) -> bool {
    mood_change(m) matches Some(d) ==> -128 <= d <= 127
}

impl MeditationData {
    /// A sitting of `duration_minutes` with no notes and no moods.
    pub fn new(duration_minutes: u32) -> (r: MeditationData)
        ensures
            r.markdown is None,
            r.duration_minutes == duration_minutes,
            r.mood_before is None,
            r.mood_after is None,
    {
        MeditationData { markdown: None, duration_minutes, mood_before: None, mood_after: None }
    }

    /// The mood after minus the mood before, both read as signed bytes.
    pub fn mood_delta(&self) -> (r: Option<i8>)
        requires
            mood_change_fits(*self),
        ensures
            r is Some <==> mood_change(*self) is Some,
            r matches Some(d) ==> mood_change(*self) == Some(d as int),
    {
        let before = match self.mood_before {
            Some(b) => b,
            None => {
                return None;
            },
        };
        let after = match self.mood_after {
            Some(a) => a,
            None => {
                return None;
            },
        };
        let a: i16 = if after < 128 {
            after as i16
        } else {
            after as i16 - 256
        };
        let b: i16 = if before < 128 {
            before as i16
        } else {
            before as i16 - 256
        };
        Some((a - b) as i8)
    }
}

impl Echo {
    /// A new echo holding a sitting of `duration_minutes`.
    pub fn new_meditation(day: Date, title: String, duration_minutes: u32) -> (r: Echo)
        ensures
            r.is_fresh(day, title, r.content),
            r.content matches EchoContent::MeditationEcho(m) && m.markdown is None
                && m.duration_minutes == duration_minutes && m.mood_before is None
                && m.mood_after is None,
    {
        Echo::new(day, title, EchoContent::MeditationEcho(MeditationData::new(duration_minutes)))
    }

    /// The sitting an echo holds, if it is a meditation.
    pub fn as_meditation(&self) -> (r: Option<&MeditationData>)
        ensures
            r is Some <==> self.content is MeditationEcho,
            r matches Some(m) ==> self.content == EchoContent::MeditationEcho(*m),
    {
        match &self.content {
            EchoContent::MeditationEcho(data) => Some(data),
            _ => None,
        }
    }

    /// The sitting an echo holds, to change in place, if it is a meditation.
    pub fn as_meditation_mut(&mut self) -> (r: Option<&mut MeditationData>)
        ensures
            r is Some <==> old(self).content is MeditationEcho,
            r matches Some(m) ==> old(self).content == EchoContent::MeditationEcho(*m) && (
            *final(self) == Echo { content: EchoContent::MeditationEcho(*final(m)), ..*old(self) }),
            r is None ==> *final(self) == *old(self),
    {
        match &mut self.content {
            EchoContent::MeditationEcho(data) => Some(data),
            _ => None,
        }
    }
}

/// The minutes of the sittings among `s`.
pub open spec fn meditation_minutes(s: Seq<Echo>) -> nat
    decreases s.len(),
{
    if s.len() == 0 {
        0
    } else {
        meditation_minutes(s.drop_last()) + match s.last().content {
            EchoContent::MeditationEcho(m) => m.duration_minutes as nat,
            _ => 0nat,
        }
    }
}

/// The changes of mood of the sittings among `s` where both moods are noted,
/// in order.
pub open spec fn mood_changes(s: Seq<Echo>) -> Seq<int>
    decreases s.len(),
{
    if s.len() == 0 {
        Seq::empty()
    } else {
        let rest = mood_changes(s.drop_last());
        match s.last().content {
            EchoContent::MeditationEcho(m) => match mood_change(m) {
                Some(d) => rest.push(d),
                None => rest,
            },
            _ => rest,
        }
    }
}

/// Every sitting with both moods noted counts once, whatever its change, and
/// adds its change (after minus before, as signed bytes) to the sum; any
/// other echo leaves the count and the sum as they were.
pub proof fn law_every_noted_sitting_counts(s: Seq<Echo>, e: Echo)
    ensures
        match e.content {
            EchoContent::MeditationEcho(m) => match (m.mood_before, m.mood_after) {
                (Some(b), Some(a)) => {
                    &&& mood_changes(s.push(e)).len() == mood_changes(s).len() + 1
                    &&& mood_changes(s.push(e)).last() == signed_byte(a) - signed_byte(b)
                    &&& sum_of(mood_changes(s.push(e))) == sum_of(mood_changes(s)) + signed_byte(a)
                        - signed_byte(b)
                },
                _ => mood_changes(s.push(e)) == mood_changes(s),
            },
            _ => mood_changes(s.push(e)) == mood_changes(s),
        },
{
    assert(s.push(e).drop_last() =~= s);
    let c = mood_changes(s.push(e));
    if c.len() > 0 {
        assert(c.drop_last() =~= mood_changes(s) || c =~= mood_changes(s));
    }
}

/// The sum of a sequence of integers.
pub open spec fn sum_of(s: Seq<int>) -> int
    decreases s.len(),
{
    if s.len() == 0 {
        0
    } else {
        sum_of(s.drop_last()) + s.last()
    }
}

/// Whether every sitting's change of mood fits a signed byte and every running
/// total of the changes fits an `i32` (where not, summing them in a signed byte
/// and an `i32` overflows).
pub open spec fn mood_totals_fit(s: Seq<Echo>) -> bool {
    &&& forall|i: int|
        0 <= i < s.len() ==> (#[trigger] s[i].content matches EchoContent::MeditationEcho(m)
            ==> mood_change_fits(m))
    &&& forall|k: int|
        0 <= k <= mood_changes(s).len() ==> i32::MIN <= #[trigger] sum_of(mood_changes(s).take(k))
            <= i32::MAX
}

proof fn lemma_minutes_prefix(s: Seq<Echo>, k: int)
    requires
        0 <= k <= s.len(),
    ensures
        meditation_minutes(s.take(k)) <= meditation_minutes(s),
    decreases s.len(),
{
    if k < s.len() {
        assert(s.drop_last().take(k) =~= s.take(k));
        lemma_minutes_prefix(s.drop_last(), k);
    } else {
        assert(s.take(k) =~= s);
    }
}

proof fn lemma_mood_changes_prefix(s: Seq<Echo>, k: int)
    requires
        0 <= k <= s.len(),
    ensures
        mood_changes(s.take(k)).len() <= mood_changes(s).len(),
        mood_changes(s.take(k)) == mood_changes(s).take(mood_changes(s.take(k)).len() as int),
    decreases s.len(),
{
    if k < s.len() {
        assert(s.drop_last().take(k) =~= s.take(k));
        lemma_mood_changes_prefix(s.drop_last(), k);
        let rest = mood_changes(s.drop_last());
        let n = mood_changes(s.take(k)).len() as int;
        assert(mood_changes(s).take(n) =~= rest.take(n));
    } else {
        assert(s.take(k) =~= s);
        assert(mood_changes(s).take(mood_changes(s).len() as int) =~= mood_changes(s));
    }
}

/// The total minutes of the sittings among `echoes`.
pub fn total_meditation_minutes(echoes: &[Echo]) -> (r: u32)
    requires
        meditation_minutes(echoes@) <= u32::MAX,
    ensures
        r == meditation_minutes(echoes@),
{
    let mut total: u32 = 0;
    let mut i: usize = 0;
    while i < echoes.len()
        invariant
            i <= echoes@.len(),
            total == meditation_minutes(echoes@.take(i as int)),
            meditation_minutes(echoes@) <= u32::MAX,
        decreases echoes@.len() - i,
    {
        proof {
            assert(echoes@.take(i as int + 1).drop_last() =~= echoes@.take(i as int));
            lemma_minutes_prefix(echoes@, i as int + 1);
        }
        match echoes[i].as_meditation() {
            Some(m) => {
                total = total + m.duration_minutes;
            },
            None => {},
        }
        i = i + 1;
    }
    assert(echoes@.take(i as int) =~= echoes@);
    total
}

/// Whether the changes of mood among `echoes` and their running totals fit
/// (see `mood_totals_fit`).
pub fn mood_totals_fit_in(echoes: &[Echo]) -> (r: bool)
    ensures
        r == mood_totals_fit(echoes@),
{
    let ghost s = echoes@;
    let mut sum: i64 = 0;
    let mut i: usize = 0;
    proof {
        assert(mood_changes(s.take(0)) =~= Seq::<int>::empty());
        assert forall|k: int| 0 <= k <= mood_changes(s.take(0)).len() implies i32::MIN <= #[trigger] sum_of(
            mood_changes(s.take(0)).take(k),
        ) <= i32::MAX by {
            assert(mood_changes(s.take(0)).take(k) =~= Seq::<int>::empty());
        }
    }
    while i < echoes.len()
        invariant
            s == echoes@,
            i <= s.len(),
            forall|m: int|
                0 <= m < i ==> (#[trigger] s[m].content matches EchoContent::MeditationEcho(x)
                    ==> mood_change_fits(x)),
            forall|k: int|
                0 <= k <= mood_changes(s.take(i as int)).len() ==> i32::MIN <= #[trigger] sum_of(
                    mood_changes(s.take(i as int)).take(k),
                ) <= i32::MAX,
            sum == sum_of(mood_changes(s.take(i as int))),
        decreases s.len() - i,
    {
        let ghost p = s.take(i as int);
        let ghost q = s.take(i as int + 1);
        proof {
            assert(q.drop_last() =~= p);
            assert(mood_changes(p).take(mood_changes(p).len() as int) =~= mood_changes(p));
            lemma_mood_changes_prefix(s, i as int + 1);
        }
        match &echoes[i].content {
            EchoContent::MeditationEcho(m) => match (m.mood_before, m.mood_after) {
                (Some(before), Some(after)) => {
                    let a: i16 = if after < 128 {
                        after as i16
                    } else {
                        after as i16 - 256
                    };
                    let b: i16 = if before < 128 {
                        before as i16
                    } else {
                        before as i16 - 256
                    };
                    let d: i16 = a - b;
                    if d < -128 || d > 127 {
                        proof {
                            assert(!mood_change_fits(*m));
                            assert(!(s[i as int].content matches EchoContent::MeditationEcho(x)
                                ==> mood_change_fits(x)));
                        }
                        return false;
                    }
                    let next: i64 = sum + d as i64;
                    proof {
                        assert(mood_changes(q) =~= mood_changes(p).push(d as int));
                        assert(mood_changes(q).drop_last() =~= mood_changes(p));
                    }
                    if next < i32::MIN as i64 || next > i32::MAX as i64 {
                        proof {
                            let n = mood_changes(q).len() as int;
                            assert(mood_changes(s).take(n) == mood_changes(q));
                            assert(!(i32::MIN <= sum_of(mood_changes(s).take(n)) <= i32::MAX));
                        }
                        return false;
                    }
                    proof {
                        let cq = mood_changes(q);
                        let cp = mood_changes(p);
                        assert forall|k: int| 0 <= k <= cq.len() implies i32::MIN <= #[trigger] sum_of(
                            cq.take(k),
                        ) <= i32::MAX by {
                            if k <= cp.len() {
                                assert(cq.take(k) =~= cp.take(k));
                            } else {
                                assert(cq.take(k) =~= cq);
                            }
                        }
                    }
                    sum = next;
                },
                _ => {
                    proof {
                        assert(mood_changes(q) =~= mood_changes(p));
                    }
                },
            },
            _ => {
                proof {
                    assert(mood_changes(q) =~= mood_changes(p));
                }
            },
        }
        i = i + 1;
    }
    proof {
        assert(s.take(s.len() as int) =~= s);
    }
    true
}

/// The sum of the changes of mood of the sittings among `echoes` where both
/// moods are noted, and how many such sittings there are (their average is
/// the sum over the count).
pub fn mood_delta_totals(echoes: &[Echo]) -> (r: (i32, usize))
    requires
        mood_totals_fit(echoes@),
    ensures
        r.0 == sum_of(mood_changes(echoes@)),
        r.1 == mood_changes(echoes@).len(),
{
    let mut sum: i32 = 0;
    let mut count: usize = 0;
    let mut i: usize = 0;
    while i < echoes.len()
        invariant
            i <= echoes@.len(),
            mood_totals_fit(echoes@),
            sum == sum_of(mood_changes(echoes@.take(i as int))),
            count == mood_changes(echoes@.take(i as int)).len(),
            count <= i,
        decreases echoes@.len() - i,
    {
        let ghost prefix = echoes@.take(i as int);
        proof {
            assert(echoes@.take(i as int + 1).drop_last() =~= prefix);
            lemma_mood_changes_prefix(echoes@, i as int + 1);
        }
        match echoes[i].as_meditation() {
            Some(m) => {
                proof {
                    assert(echoes@[i as int].content matches EchoContent::MeditationEcho(m)
                        ==> mood_change_fits(m));
                }
                match m.mood_delta() {
                    Some(d) => {
                        proof {
                            let changes = mood_changes(echoes@.take(i as int + 1));
                            assert(changes =~= mood_changes(prefix).push(d as int));
                            assert(changes.drop_last() =~= mood_changes(prefix));
                            assert(sum_of(changes) == sum + d);
                            assert(changes == mood_changes(echoes@).take(count as int + 1));
                            assert(i32::MIN <= sum_of(mood_changes(echoes@).take(count as int + 1))
                                <= i32::MAX);
                        }
                        sum = sum + d as i32;
                        count = count + 1;
                    },
                    None => {},
                }
            },
            None => {},
        }
        i = i + 1;
    }
    assert(echoes@.take(i as int) =~= echoes@);
    (sum, count)
}

} // verus!
