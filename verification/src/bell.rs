//! Mindfulness bells: reminders that ring every few minutes within a span of
//! hours, and the list of bells a user keeps.

use vstd::prelude::*;

use crate::ids::{is_random_uuid, Id};
use crate::storage::{id_text, uuid_text};
use crate::text::str_eq;

verus! {

/// A bell: it rings every `interval_minutes` minutes from `start_hour` up to
/// (not including) `end_hour`, while active.
#[derive(Clone, Debug)]
pub struct Bell {
    pub id: String,
    pub name: String,
    pub note: String,
    pub interval_minutes: i32,
    pub start_hour: i32,
    pub end_hour: i32,
    pub is_active: bool,
}

/// The value of a cast of `x` to `u32`.
pub open spec fn unsigned(x: i32) -> int {
    if x >= 0 {
        x as int
    } else {
        x + 0x1_0000_0000
    }
}

/// Whether a bell rings at `hour`:`minute`: it is active, the hour lies in
/// its span, and the minute is a multiple of its interval (of 1 where the
/// interval is 0).
pub open spec fn rings(b: Bell, hour: int, minute: int) -> bool {
    let every = if unsigned(b.interval_minutes) > 1 {
        unsigned(b.interval_minutes)
    } else {
        1
    };
    &&& b.is_active
    &&& hour >= unsigned(b.start_hour)
    &&& hour < unsigned(b.end_hour)
    &&& minute % every == 0
}

/// The index of the first bell of `s` with the id `id`.
pub open spec fn first_with_id(s: Seq<Bell>, id: Seq<char>) -> Option<int>
    decreases s.len(),
{
    if s.len() == 0 {
        None
    } else if s[0].id@ == id {
        Some(0)
    } else {
        match first_with_id(s.drop_first(), id) {
            Some(k) => Some(k + 1),
            None => None,
        }
    }
}

/// The bells of `s` whose id is not `id`, in order.
pub open spec fn without_id(s: Seq<Bell>, id: Seq<char>) -> Seq<Bell>
    decreases s.len(),
{
    if s.len() == 0 {
        Seq::empty()
    } else {
        let rest = without_id(s.drop_last(), id);
        if s.last().id@ == id {
            rest
        } else {
            rest.push(s.last())
        }
    }
}

fn as_unsigned(x: i32) -> (r: u32)
    ensures
        r == unsigned(x),
{
    if x >= 0 {
        x as u32
    } else {
        (x as i64 + 0x1_0000_0000i64) as u32
    }
}

impl Bell {
    /// Whether the bell rings at `hour`:`minute`.
    pub fn rings_at(&self, hour: u32, minute: u32) -> (r: bool)
        ensures
            r == rings(*self, hour as int, minute as int),
    {
        if !self.is_active {
            return false;
        }
        let interval = as_unsigned(self.interval_minutes);
        let every: u32 = if interval > 1 {
            interval
        } else {
            1
        };
        hour >= as_unsigned(self.start_hour) && hour < as_unsigned(self.end_hour) && minute % every
            == 0
    }
}

/// The positions of the bells of `s` that ring at `hour`:`minute`, in order.
pub open spec fn ringing_positions(s: Seq<Bell>, hour: int, minute: int) -> Seq<usize>
    decreases s.len(),
{
    if s.len() == 0 {
        Seq::empty()
    } else {
        let rest = ringing_positions(s.drop_last(), hour, minute);
        if rings(s.last(), hour, minute) {
            rest.push((s.len() - 1) as usize)
        } else {
            rest
        }
    }
}

/// The positions of the bells that ring at `hour`:`minute`, in order.
pub fn ringing_bells(bells: &[Bell], hour: u32, minute: u32) -> (r: Vec<usize>)
    ensures
        r@ == ringing_positions(bells@, hour as int, minute as int),
{
    let mut r: Vec<usize> = Vec::new();
    let mut i: usize = 0;
    while i < bells.len()
        invariant
            i <= bells@.len(),
            r@ == ringing_positions(bells@.take(i as int), hour as int, minute as int),
        decreases bells@.len() - i,
    {
        assert(bells@.take(i as int + 1).drop_last() =~= bells@.take(i as int));
        if bells[i].rings_at(hour, minute) {
            r.push(i);
        }
        i = i + 1;
    }
    assert(bells@.take(i as int) =~= bells@);
    r
}

fn copy_bell(b: &Bell) -> (r: Bell)
    ensures
        r == *b,
{
    Bell {
        id: b.id.clone(),
        name: b.name.clone(),
        note: b.note.clone(),
        interval_minutes: b.interval_minutes,
        start_hour: b.start_hour,
        end_hour: b.end_hour,
        is_active: b.is_active,
    }
}

/// The position of the first bell with the id `id`.
fn find_bell(bells: &Vec<Bell>, id: &str) -> (r: Option<usize>)
    ensures
        r matches Some(k) ==> first_with_id(bells@, id@) == Some(k as int) && k < bells@.len(),
        r is None ==> first_with_id(bells@, id@) is None,
{
    let mut k: usize = 0;
    while k < bells.len()
        invariant
            k <= bells@.len(),
            forall|m: int| 0 <= m < k ==> (#[trigger] bells@[m]).id@ != id@,
        decreases bells@.len() - k,
    {
        if str_eq(bells[k].id.as_str(), id) {
            proof {
                lemma_first_with_id(bells@, id@, k as int);
            }
            return Some(k);
        }
        k = k + 1;
    }
    proof {
        lemma_first_with_id(bells@, id@, bells@.len() as int);
    }
    None
}

proof fn lemma_first_with_id(s: Seq<Bell>, id: Seq<char>, k: int)
    requires
        0 <= k <= s.len(),
        forall|m: int| 0 <= m < k ==> (#[trigger] s[m]).id@ != id,
    ensures
        k < s.len() && s[k].id@ == id ==> first_with_id(s, id) == Some(k),
        k == s.len() ==> first_with_id(s, id) is None,
    decreases s.len(),
{
    if s.len() > 0 && k > 0 {
        assert forall|m: int| 0 <= m < k - 1 implies (#[trigger] s.drop_first()[m]).id@ != id by {
            assert(s.drop_first()[m] == s[m + 1]);
        }
        assert(k < s.len() ==> s.drop_first()[k - 1] == s[k]);
        lemma_first_with_id(s.drop_first(), id, k - 1);
    }
}

/// Saves a bell from its form: with an empty id a new, active bell with a
/// fresh id is added; otherwise the first bell with that id takes the new
/// name, note, interval and hours.
pub fn save_bell(
    bells: &mut Vec<Bell>,
    id: &str,
    name: String,
    note: String,
    interval_minutes: i32,
    start_hour: i32,
    end_hour: i32,
)
    ensures
        id@.len() == 0 ==> {
            &&& final(bells)@.len() == old(bells)@.len() + 1
            &&& final(bells)@.drop_last() == old(bells)@
            &&& exists|v: u128| is_random_uuid(v) && final(bells)@.last().id@ == uuid_text(v)
            &&& final(bells)@.last().name == name
            &&& final(bells)@.last().note == note
            &&& final(bells)@.last().interval_minutes == interval_minutes
            &&& final(bells)@.last().start_hour == start_hour
            &&& final(bells)@.last().end_hour == end_hour
            &&& final(bells)@.last().is_active
        },
        id@.len() > 0 ==> match first_with_id(old(bells)@, id@) {
            Some(k) => final(bells)@ == old(bells)@.update(
                k,
                Bell { name, note, interval_minutes, start_hour, end_hour, ..old(bells)@[k] },
            ),
            None => final(bells)@ == old(bells)@,
        },
{
    if id.is_empty() {
        let fresh = Id::new_v4();
        let bell = Bell {
            id: id_text(fresh),
            name,
            note,
            interval_minutes,
            start_hour,
            end_hour,
            is_active: true,
        };
        bells.push(bell);
        assert(bells@.drop_last() =~= old(bells)@);
    } else {
        match find_bell(bells, id) {
            Some(k) => {
                let old_bell = copy_bell(&bells[k]);
                bells.set(
                    k,
                    Bell {
                        id: old_bell.id,
                        name,
                        note,
                        interval_minutes,
                        start_hour,
                        end_hour,
                        is_active: old_bell.is_active,
                    },
                );
            },
            None => {},
        }
    }
}

/// Switches the first bell with the id `id` on or off.
pub fn toggle_bell(bells: &mut Vec<Bell>, id: &str, active: bool)
    ensures
        match first_with_id(old(bells)@, id@) {
            Some(k) => final(bells)@ == old(bells)@.update(
                k,
                Bell { is_active: active, ..old(bells)@[k] },
            ),
            None => final(bells)@ == old(bells)@,
        },
{
    match find_bell(bells, id) {
        Some(k) => {
            let b = copy_bell(&bells[k]);
            bells.set(k, Bell { is_active: active, ..b });
        },
        None => {},
    }
}

/// Removes every bell with the id `id`.
pub fn delete_bell(bells: &mut Vec<Bell>, id: &str)
    ensures
        final(bells)@ == without_id(old(bells)@, id@),
{
    let mut kept: Vec<Bell> = Vec::new();
    let mut i: usize = 0;
    while i < bells.len()
        invariant
            i <= bells@.len(),
            bells@ == old(bells)@,
            kept@ == without_id(bells@.take(i as int), id@),
        decreases bells@.len() - i,
    {
        assert(bells@.take(i as int + 1).drop_last() =~= bells@.take(i as int));
        if !str_eq(bells[i].id.as_str(), id) {
            kept.push(copy_bell(&bells[i]));
        }
        i = i + 1;
    }
    assert(bells@.take(i as int) =~= bells@);
    *bells = kept;
}

} // verus!
