//! The timeline as a list of days, newest first: today and every day with a
//! shown echo, each with its echoes in the order they were created.

use vstd::prelude::*;
use vstd::relations::{sorted_by, total_ordering};

use crate::calendar::{month_name, valid_ymd, weekday_name, Date};
use crate::model::echo::Echo;
use crate::storage::{date_text, date_text_of, space_padded};
use crate::timeline::{card_of, is_shown, relative_label, relative_text, shows, EchoCard};

verus! {

/// One day of the timeline: the day, its ISO text, its long label, how it
/// stands to today, and the cards of its echoes.
#[derive(Clone, Debug)]
pub struct DaySignpost {
    pub day: Date,
    pub iso: String,
    pub label: String,
    pub rel: String,
    pub is_today: bool,
    pub echoes: Vec<EchoCard>,
}

/// Whether the timeline shows `e`: plain echoes and tasks.
pub open spec fn on_timeline(e: Echo) -> bool {
    e.content is PlainEcho || e.content is TaskEcho
}

/// The positions, in order, among the first `n` echoes of `s`, of those the
/// timeline shows on day `d`.
pub open spec fn day_positions(s: Seq<Echo>, d: (int, int, int), n: int) -> Seq<usize>
    decreases n,
{
    if n <= 0 {
        Seq::empty()
    } else {
        let rest = day_positions(s, d, n - 1);
        if on_timeline(s[n - 1]) && s[n - 1].day@ == d {
            rest.push((n - 1) as usize)
        } else {
            rest
        }
    }
}

/// Whether the echo at position `a` of `s` was created no later than the one
/// at `b`; of two created at the same moment, the one that comes first in `s`
/// counts as the earlier.
pub open spec fn created_no_later(s: Seq<Echo>, a: usize, b: usize) -> bool {
    let x = s[a as int].created_at;
    let y = s[b as int].created_at;
    x.earlier_than(y) || (x.same_moment(y) && a <= b)
}

/// `created_no_later` as a relation on positions.
pub open spec fn creation_leq(s: Seq<Echo>) -> spec_fn(usize, usize) -> bool {
    |a: usize, b: usize| created_no_later(s, a, b)
}

/// The positions of the echoes the timeline shows on day `d`, in the order it
/// lists them: by the moment they were created, those of one moment in their
/// order in `s`.
pub open spec fn day_order(s: Seq<Echo>, d: (int, int, int)) -> Seq<usize> {
    day_positions(s, d, s.len() as int).sort_by(creation_leq(s))
}

/// Whether the timeline lists day `d`: today, and each day with a shown echo.
pub open spec fn listed_day(s: Seq<Echo>, today: Date, d: (int, int, int)) -> bool {
    d == today@ || exists|k: int| 0 <= k < s.len() && on_timeline(s[k]) && s[k].day@ == d
}

/// The label of a day as chrono writes it with `%A, %B %e`: weekday, month
/// and day of the month (space-padded), in English.
pub open spec fn weekday_label(year: int, month: int, day: int) -> Seq<char> {
    weekday_name(year, month, day) + ", "@ + month_name(month) + " "@ + space_padded(day)
}

/// Whether `g` is the signpost of its day: its texts, whether it is today, and
/// the cards of the day's echoes in the timeline's order.
pub open spec fn signpost_of(g: DaySignpost, s: Seq<Echo>, today: Date) -> bool {
    &&& g.iso@ == date_text(g.day@.0, g.day@.1, g.day@.2)
    &&& g.label@ == weekday_label(g.day@.0, g.day@.1, g.day@.2)
    &&& g.rel@ == relative_text(today.day_number() - g.day.day_number())
    &&& g.is_today == (g.day@ == today@)
    &&& g.echoes@.len() == day_order(s, g.day@).len()
    &&& forall|j: int|
        0 <= j < g.echoes@.len() ==> shows(
            #[trigger] g.echoes@[j],
            s[day_order(s, g.day@)[j] as int],
        )
}

/// Whether the dates of `v` run strictly from the latest to the earliest.
pub open spec fn newest_first(v: Seq<Date>) -> bool {
    forall|i: int, j: int| 0 <= i < j < v.len() ==> #[trigger] v[j].precedes(#[trigger] v[i])
}

/// Whether `v` holds a date with the year, month and day `x`.
pub open spec fn has_day(v: Seq<Date>, x: (int, int, int)) -> bool {
    exists|i: int| 0 <= i < v.len() && #[trigger] v[i]@ == x
}

/// The creation order on positions is a total order.
proof fn lemma_creation_total(s: Seq<Echo>)
    ensures
        total_ordering(creation_leq(s)),
{
    let r = creation_leq(s);
    assert forall|x: usize, y: usize, z: usize| #[trigger] r(x, y) && #[trigger] r(y, z) implies r(
        x,
        z,
    ) by {}
    assert forall|x: usize, y: usize| #[trigger] r(x, y) && #[trigger] r(y, x) implies x == y by {}
    assert forall|x: usize, y: usize| #[trigger] r(x, y) || #[trigger] r(y, x) by {}
    assert forall|x: usize| #[trigger] r(x, x) by {}
}

/// Each day of the timeline lists the shown echoes of that day, each once,
/// and none of them after one created later.
pub proof fn law_day_order_sorts_the_day(s: Seq<Echo>, d: (int, int, int))
    ensures
        day_order(s, d).to_multiset() == day_positions(s, d, s.len() as int).to_multiset(),
        forall|i: int, j: int|
            0 <= i < j < day_order(s, d).len() ==> !(#[trigger] s[day_order(s, d)[j] as int]).created_at.earlier_than(
                (#[trigger] s[day_order(s, d)[i] as int]).created_at,
            ),
{
    let leq = creation_leq(s);
    lemma_creation_total(s);
    day_positions(s, d, s.len() as int).lemma_sort_by_ensures(leq);
    let o = day_order(s, d);
    assert forall|i: int, j: int| 0 <= i < j < o.len() implies !(#[trigger] s[o[j] as int]).created_at.earlier_than(
        (#[trigger] s[o[i] as int]).created_at,
    ) by {
        assert(leq(o[i], o[j]));
    }
}

/// Adds day `d` to `days` where it is missing, keeping them newest first.
fn insert_day(days: &mut Vec<Date>, d: Date)
    requires
        newest_first(old(days)@),
    ensures
        newest_first(final(days)@),
        forall|x: (int, int, int)|
            #[trigger] has_day(final(days)@, x) <==> (x == d@ || has_day(old(days)@, x)),
{
    let mut i: usize = 0;
    while i < days.len()
        invariant
            i <= days.len(),
            days@ == old(days)@,
            newest_first(days@),
            forall|j: int| 0 <= j < i ==> d.precedes(#[trigger] days@[j]),
        decreases days.len() - i,
    {
        let cur = days[i];
        if !cur.is_before(&d) && !d.is_before(&cur) {
            proof {
                assert(cur@ == d@);
                assert forall|x: (int, int, int)|
                    #[trigger] has_day(days@, x) <==> (x == d@ || has_day(old(days)@, x)) by {
                    if x == d@ {
                        assert(days@[i as int]@ == x);
                    }
                }
            }
            return ;
        }
        if cur.is_before(&d) {
            days.insert(i, d);
            proof {
                let v = days@;
                let o = old(days)@;
                assert forall|a: int, b: int| 0 <= a < b < v.len() implies #[trigger] v[b].precedes(
                    #[trigger] v[a],
                ) by {
                    if a < i && b == i {
                        assert(d.precedes(o[a]));
                    } else if a < i && b > i {
                        assert(o[b - 1].precedes(o[a]));
                    } else if a == i && b > i {
                        if b - 1 > i {
                            assert(o[b - 1].precedes(o[i as int]));
                        }
                    } else if a > i {
                        assert(o[b - 1].precedes(o[a - 1]));
                    }
                }
                assert forall|x: (int, int, int)|
                    #[trigger] has_day(v, x) <==> (x == d@ || has_day(o, x)) by {
                    if x == d@ {
                        assert(v[i as int]@ == x);
                    }
                    if has_day(o, x) {
                        let k = choose|k: int| 0 <= k < o.len() && #[trigger] o[k]@ == x;
                        if k < i {
                            assert(v[k]@ == x);
                        } else {
                            assert(v[k + 1]@ == x);
                        }
                    }
                    if has_day(v, x) {
                        let k = choose|k: int| 0 <= k < v.len() && #[trigger] v[k]@ == x;
                        if k < i {
                            assert(o[k]@ == x);
                        } else if k > i {
                            assert(o[k - 1]@ == x);
                        }
                    }
                }
            }
            return ;
        }
        i += 1;
    }
    days.push(d);
    proof {
        let v = days@;
        let o = old(days)@;
        assert forall|a: int, b: int| 0 <= a < b < v.len() implies #[trigger] v[b].precedes(
            #[trigger] v[a],
        ) by {
            if b == v.len() - 1 {
                assert(d.precedes(o[a]));
            }
        }
        assert forall|x: (int, int, int)|
            #[trigger] has_day(v, x) <==> (x == d@ || has_day(o, x)) by {
            if x == d@ {
                assert(v[o.len() as int]@ == x);
            }
            if has_day(o, x) {
                let k = choose|k: int| 0 <= k < o.len() && #[trigger] o[k]@ == x;
                assert(v[k]@ == x);
            }
            if has_day(v, x) {
                let k = choose|k: int| 0 <= k < v.len() && #[trigger] v[k]@ == x;
                if k < o.len() {
                    assert(o[k]@ == x);
                }
            }
        }
    }
}

/// The days the timeline lists, newest first.
fn listed_days(echoes: &Vec<Echo>, today: Date) -> (days: Vec<Date>)
    ensures
        newest_first(days@),
        forall|x: (int, int, int)| #[trigger] has_day(days@, x) <==> listed_day(echoes@, today, x),
{
    let mut days: Vec<Date> = Vec::new();
    days.push(today);
    let mut k: usize = 0;
    proof {
        assert(days@[0]@ == today@);
    }
    while k < echoes.len()
        invariant
            k <= echoes.len(),
            newest_first(days@),
            forall|x: (int, int, int)|
                #[trigger] has_day(days@, x) <==> (x == today@ || exists|m: int|
                    0 <= m < k && on_timeline(echoes@[m]) && echoes@[m].day@ == x),
        decreases echoes.len() - k,
    {
        let ghost before = days@;
        if is_shown(&echoes[k]) {
            insert_day(&mut days, echoes[k].day);
        }
        proof {
            assert forall|x: (int, int, int)|
                #[trigger] has_day(days@, x) <==> (x == today@ || exists|m: int|
                    0 <= m < k + 1 && on_timeline(echoes@[m]) && echoes@[m].day@ == x) by {
                if x != today@ && has_day(days@, x) && on_timeline(echoes@[k as int])
                    && echoes@[k as int].day@ == x {
                    assert(0 <= k < k + 1);
                }
                if exists|m: int|
                    0 <= m < k + 1 && on_timeline(echoes@[m]) && echoes@[m].day@ == x {
                    let m = choose|m: int|
                        0 <= m < k + 1 && on_timeline(echoes@[m]) && echoes@[m].day@ == x;
                    if m < k {
                        assert(has_day(before, x));
                    }
                }
            }
        }
        k += 1;
    }
    proof {
        assert forall|x: (int, int, int)| #[trigger]
            has_day(days@, x) <==> listed_day(echoes@, today, x) by {}
    }
    days
}

/// Positions sorted by creation that are the day's positions are the day's
/// order.
proof fn lemma_order_unique(s: Seq<Echo>, ord: Seq<usize>, d: (int, int, int))
    requires
        sorted_by(ord, creation_leq(s)),
        ord.to_multiset() == day_positions(s, d, s.len() as int).to_multiset(),
    ensures
        ord == day_order(s, d),
{
    let leq = creation_leq(s);
    lemma_creation_total(s);
    day_positions(s, d, s.len() as int).lemma_sort_by_ensures(leq);
    vstd::seq_lib::lemma_sorted_unique(ord, day_order(s, d), leq);
}

/// Every position `day_positions` lists is below `n` and holds a shown echo
/// of day `d`.
proof fn lemma_day_positions_bound(s: Seq<Echo>, d: (int, int, int), n: int)
    requires
        0 <= n <= s.len(),
        n <= usize::MAX,
    ensures
        forall|j: int|
            0 <= j < day_positions(s, d, n).len() ==> #[trigger] day_positions(s, d, n)[j] < n,
    decreases n,
{
    if n > 0 {
        lemma_day_positions_bound(s, d, n - 1);
        let rest = day_positions(s, d, n - 1);
        if on_timeline(s[n - 1]) && s[n - 1].day@ == d {
            assert(day_positions(s, d, n) == rest.push((n - 1) as usize));
        } else {
            assert(day_positions(s, d, n) == rest);
        }
    }
}

/// The positions of the echoes shown on `day`, in the timeline's order.
fn order_of_day(echoes: &Vec<Echo>, day: Date) -> (ord: Vec<usize>)
    ensures
        ord@ == day_order(echoes@, day@),
{
    let ghost s = echoes@;
    let ghost leq = creation_leq(s);
    let mut ord: Vec<usize> = Vec::new();
    let mut k: usize = 0;
    proof {
        lemma_creation_total(s);
    }
    while k < echoes.len()
        invariant
            s == echoes@,
            leq == creation_leq(s),
            total_ordering(leq),
            k <= echoes.len(),
            sorted_by(ord@, leq),
            ord@.to_multiset() == day_positions(s, day@, k as int).to_multiset(),
            forall|j: int| 0 <= j < ord@.len() ==> #[trigger] ord@[j] < k,
        decreases echoes.len() - k,
    {
        proof {
            assert(day_positions(s, day@, k + 1) == if on_timeline(s[k as int]) && s[k as int].day@
                == day@ {
                day_positions(s, day@, k as int).push(k)
            } else {
                day_positions(s, day@, k as int)
            });
        }
        if is_shown(&echoes[k]) && !echoes[k].day.is_before(&day) && !day.is_before(
            &echoes[k].day,
        ) {
            proof {
                assert(echoes[k as int].day@ == day@);
            }
            let ghost before = ord@;
            let mut p: usize = 0;
            while p < ord.len()
                invariant
                    s == echoes@,
                    leq == creation_leq(s),
                    total_ordering(leq),
                    k < echoes.len(),
                    ord@ == before,
                    p <= ord.len(),
                    forall|j: int| 0 <= j < ord@.len() ==> #[trigger] ord@[j] < k,
                    forall|j: int| 0 <= j < p ==> #[trigger] leq(ord@[j], k),
                ensures
                    p < ord.len() ==> !leq(ord@[p as int], k),
                decreases ord.len() - p,
            {
                let a = &echoes[ord[p]].created_at;
                let b = &echoes[k].created_at;
                let no_later: bool = a.is_before(b) || (a.is_same_moment(b) && ord[p] <= k);
                if !no_later {
                    break ;
                }
                p += 1;
            }
            proof {
                if p < ord.len() {
                    assert(leq(k, ord@[p as int]));
                }
            }
            ord.insert(p, k);
            proof {
                let v = ord@;
                assert forall|a: int, b: int| 0 <= a < b < v.len() implies #[trigger] leq(
                    v[a],
                    v[b],
                ) by {
                    if a < p && b == p {
                    } else if a < p && b > p {
                        assert(leq(before[a], before[b - 1]));
                    } else if a == p && b > p {
                        if b - 1 > p {
                            assert(leq(before[p as int], before[b - 1]));
                        }
                    } else if a > p {
                        assert(leq(before[a - 1], before[b - 1]));
                    }
                }
                assert(v.to_multiset() == before.to_multiset().insert(k)) by {
                    broadcast use vstd::seq_lib::group_to_multiset_ensures;

                }
                assert(day_positions(s, day@, k as int).push(k).to_multiset()
                    == day_positions(s, day@, k as int).to_multiset().insert(k)) by {
                    broadcast use vstd::seq_lib::group_to_multiset_ensures;

                }
            }
        }
        k += 1;
    }
    proof {
        lemma_order_unique(s, ord@, day@);
    }
    ord
}

/// The signpost of `day` for the echoes `echoes`, seen from `today`.
fn signpost(echoes: &Vec<Echo>, day: Date, today: Date) -> (g: DaySignpost)
    ensures
        g.day == day,
        signpost_of(g, echoes@, today),
{
    proof {
        use_type_invariant(&day);
    }
    let ord = order_of_day(echoes, day);
    proof {
        assert(echoes@.len() == echoes.len());
        lemma_day_positions_bound(echoes@, day@, echoes@.len() as int);
        day_positions(echoes@, day@, echoes@.len() as int).lemma_sort_by_ensures(
            creation_leq(echoes@),
        );
        assert forall|j: int| 0 <= j < ord@.len() implies #[trigger] ord@[j] < echoes@.len() by {
            let x = ord@[j];
            assert(ord@.to_multiset().count(x) > 0) by {
                broadcast use vstd::seq_lib::group_to_multiset_ensures;

                assert(ord@.contains(x));
            }
            let pos = day_positions(echoes@, day@, echoes@.len() as int);
            assert(pos.contains(x)) by {
                broadcast use vstd::seq_lib::group_to_multiset_ensures;

                lemma_creation_total(echoes@);
                pos.lemma_sort_by_ensures(creation_leq(echoes@));
            }
        }
    }
    let mut cards: Vec<EchoCard> = Vec::new();
    let mut j: usize = 0;
    while j < ord.len()
        invariant
            j <= ord.len(),
            cards@.len() == j,
            forall|m: int| 0 <= m < ord@.len() ==> #[trigger] ord@[m] < echoes@.len(),
            forall|m: int| 0 <= m < j ==> shows(#[trigger] cards@[m], echoes@[ord@[m] as int]),
        decreases ord.len() - j,
    {
        cards.push(card_of(&echoes[ord[j]]));
        j += 1;
    }
    let is_today: bool = !day.is_before(&today) && !today.is_before(&day);
    DaySignpost {
        day,
        iso: date_text_of(day),
        label: chrono_weekday_label(day.year(), day.month(), day.day()),
        rel: relative_label(day, today),
        is_today,
        echoes: cards,
    }
}

/// The timeline of `echoes` as seen on `today`: one signpost for today and
/// for every day with a plain echo or a task, newest day first, each with the
/// cards of that day's shown echoes in the order they were created.
pub fn timeline_days(echoes: &Vec<Echo>, today: Date) -> (r: Vec<DaySignpost>)
    ensures
        forall|i: int, j: int| 0 <= i < j < r@.len() ==> r@[j].day.precedes(r@[i].day),
        forall|i: int| 0 <= i < r@.len() ==> listed_day(echoes@, today, #[trigger] r@[i].day@),
        forall|x: (int, int, int)|
            #[trigger] listed_day(echoes@, today, x) ==> exists|i: int|
                0 <= i < r@.len() && #[trigger] r@[i].day@ == x,
        forall|i: int| 0 <= i < r@.len() ==> signpost_of(#[trigger] r@[i], echoes@, today),
{
    let days = listed_days(echoes, today);
    let mut out: Vec<DaySignpost> = Vec::new();
    let mut i: usize = 0;
    while i < days.len()
        invariant
            i <= days.len(),
            out@.len() == i,
            forall|m: int| 0 <= m < i ==> (#[trigger] out@[m]).day == days@[m],
            forall|m: int| 0 <= m < i ==> signpost_of(#[trigger] out@[m], echoes@, today),
        decreases days.len() - i,
    {
        out.push(signpost(echoes, days[i], today));
        i += 1;
    }
    proof {
        assert forall|x: (int, int, int)| #[trigger] listed_day(echoes@, today, x) implies exists|
            i: int,
        | 0 <= i < out@.len() && #[trigger] out@[i].day@ == x by {
            assert(has_day(days@, x));
            let k = choose|k: int| 0 <= k < days@.len() && #[trigger] days@[k]@ == x;
            assert(out@[k].day@ == x);
        }
        assert forall|m: int| 0 <= m < out@.len() implies listed_day(
            echoes@,
            today,
            #[trigger] out@[m].day@,
        ) by {
            assert(days@[m]@ == out@[m].day@);
            assert(has_day(days@, out@[m].day@));
        }
        assert forall|a: int, b: int| 0 <= a < b < out@.len() implies out@[b].day.precedes(
            out@[a].day,
        ) by {
            assert(days@[b].precedes(days@[a]));
        }
    }
    out
}

/// A day formatted by chrono as `NaiveDate::format("%A, %B %e")`. Claimed:
/// the text is `weekday_label` of the day, as chrono's formatting code writes
/// each field.
#[verifier::external_body]
fn chrono_weekday_label(year: i32, month: u32, day: u32) -> (r: String)
    requires
        valid_ymd(year as int, month as int, day as int),
    ensures
        r@ == weekday_label(year as int, month as int, day as int),
{
    chrono::NaiveDate::from_ymd_opt(year, month, day).unwrap().format("%A, %B %e").to_string()
}

} // verus!
