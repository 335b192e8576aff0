//! Sections group echoes; templates seed new echoes with text.

use vstd::prelude::*;

use crate::ids::{is_random_uuid, Id};
use crate::storage::{id_text, uuid_text};
use crate::text::{ascii_folded, signed_decimal, signed_decimal_text, std_eq_ignore_ascii_case};

verus! {

/// A named group of echoes, shown in `sort_order`.
#[derive(Debug, Clone)]
pub struct Section {
    pub id: Id,
    pub name: String,
    pub sort_order: i32,
}

/// Text that new echoes of a section start with.
#[derive(Debug, Clone)]
pub struct Template {
    pub id: Id,
    pub name: String,
    pub markdown_seed: String,
    pub section_id: Option<Id>,
}

impl Section {
    /// A new section with a fresh id.
    pub fn new(name: String, sort_order: i32) -> (r: Section)
        ensures
            r.name == name,
            r.sort_order == sort_order,
            is_random_uuid(r.id.0),
    {
        Section { id: Id::new_v4(), name, sort_order }
    }

    /// The section as text: its name, then its id and sort order on lines of
    /// their own.
    pub fn describe(&self) -> (r: String)
        ensures
            r@ == self.name@ + "\n  ID: "@ + uuid_text(self.id.0) + "\n  Sort Order: "@
                + signed_decimal(self.sort_order as int),
    {
        let mut s = self.name.clone();
        s.append("\n  ID: ");
        s.append(id_text(self.id).as_str());
        s.append("\n  Sort Order: ");
        s.append(signed_decimal_text(self.sort_order).as_str());
        s
    }

    /// Gives the section a new name.
    pub fn rename(&mut self, new_name: String)
        ensures
            (*final(self) == Section { name: new_name, ..*old(self) }),
    {
        self.name = new_name;
    }
}

/// The largest sort order among `s` (-1 where there is none).
pub open spec fn max_sort_order(s: Seq<Section>) -> int
    decreases s.len(),
{
    if s.len() == 0 {
        -1
    } else {
        let rest = max_sort_order(s.drop_last());
        if s.last().sort_order > rest {
            s.last().sort_order as int
        } else {
            rest
        }
    }
}

/// The sort order for a new section: one past the largest in use (0 where
/// there are none).
pub fn next_sort_order(sections: &[Section]) -> (r: i32)
    requires
        max_sort_order(sections@) < i32::MAX,
    ensures
        r == max_sort_order(sections@) + 1,
{
    let mut max: i32 = -1;
    let mut i: usize = 0;
    while i < sections.len()
        invariant
            i <= sections@.len(),
            max == max_sort_order(sections@.take(i as int)),
        decreases sections@.len() - i,
    {
        assert(sections@.take(i as int + 1).drop_last() =~= sections@.take(i as int));
        if sections[i].sort_order > max {
            max = sections[i].sort_order;
        }
        i = i + 1;
    }
    assert(sections@.take(i as int) =~= sections@);
    max + 1
}

/// A new section's sort order comes after that of every section there is.
pub proof fn law_next_sort_order_is_last(s: Seq<Section>)
    ensures
        forall|i: int| 0 <= i < s.len() ==> #[trigger] s[i].sort_order < max_sort_order(s) + 1,
        max_sort_order(s) >= -1,
    decreases s.len(),
{
    if s.len() > 0 {
        law_next_sort_order_is_last(s.drop_last());
        assert forall|i: int| 0 <= i < s.len() implies #[trigger] s[i].sort_order < max_sort_order(
            s,
        ) + 1 by {
            if i < s.len() - 1 {
                assert(s[i] == s.drop_last()[i]);
            }
        }
    }
}

/// Whether a section is called `name`, ignoring the case of ASCII letters.
pub open spec fn called(section: Section, name: Seq<char>) -> bool {
    ascii_folded(section.name@) == ascii_folded(name)
}

/// The position of the first section called `name`, ignoring the case of
/// ASCII letters; `None` where no section is.
pub fn find_section_by_name(sections: &[Section], name: &str) -> (r: Option<usize>)
    ensures
        r matches Some(k) ==> k < sections@.len() && called(sections@[k as int], name@) && forall|
            j: int,
        | 0 <= j < k ==> !called(#[trigger] sections@[j], name@),
        r is None ==> forall|j: int|
            0 <= j < sections@.len() ==> !called(#[trigger] sections@[j], name@),
{
    let mut i: usize = 0;
    while i < sections.len()
        invariant
            i <= sections@.len(),
            forall|j: int| 0 <= j < i ==> !called(#[trigger] sections@[j], name@),
        decreases sections@.len() - i,
    {
        if std_eq_ignore_ascii_case(sections[i].name.as_str(), name) {
            return Some(i);
        }
        i = i + 1;
    }
    None
}

} // verus!
