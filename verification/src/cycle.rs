//! The layout cycle, as a step from one tag to the next.
//!
//! The step takes the configured cycle plus the tag selected right now, and returns the tag that
//! comes after it.

use vstd::prelude::*;

use crate::macos::tis::{tags, LayoutTag};

verus! {

/// Whether `tag` stands at `i` in the cycle and nowhere before it.
pub open spec fn stands_first(cycle: Seq<Seq<char>>, tag: Seq<char>, i: int) -> bool {
    &&& 0 <= i < cycle.len()
    &&& cycle[i] == tag
    &&& forall|j: int| 0 <= j < i ==> #[trigger] cycle[j] != tag
}

/// The tag after `current` in the cycle, wrapping: the first entry for a tag the cycle does not
/// carry and for no tag at all, and nothing for an empty cycle.
pub open spec fn next_tag(cycle: Seq<Seq<char>>, current: Option<Seq<char>>) -> Option<Seq<char>> {
    if cycle.len() == 0 {
        None
    } else if current is Some && cycle.contains(current->0) {
        let i = choose|i: int| stands_first(cycle, current->0, i);
        Some(
            if i + 1 < cycle.len() {
                cycle[i + 1]
            } else {
                cycle[0]
            },
        )
    } else {
        Some(cycle[0])
    }
}

/// The tag an optional tag stands for, as text.
pub open spec fn tag_text(tag: Option<LayoutTag>) -> Option<Seq<char>> {
    match tag {
        Some(tag) => Some(tag@),
        None => None,
    }
}

proof fn lemma_first_standing_is_unique(cycle: Seq<Seq<char>>, tag: Seq<char>, i: int)
    requires
        stands_first(cycle, tag, i),
    ensures
        cycle.contains(tag),
        i == choose|i: int| stands_first(cycle, tag, i),
{
    let found = choose|i: int| stands_first(cycle, tag, i);
    assert(stands_first(cycle, tag, found));
    if found < i {
        assert(cycle[found] == tag);
    }
    if i < found {
        assert(cycle[i] == tag);
    }
}

/// A tag a cycle carries stands first somewhere in it.
proof fn lemma_a_carried_tag_stands_first(cycle: Seq<Seq<char>>, tag: Seq<char>)
    requires
        cycle.contains(tag),
    ensures
        exists|i: int| stands_first(cycle, tag, i),
    decreases cycle.len(),
{
    let last = cycle.len() - 1;
    if cycle.drop_last().contains(tag) {
        lemma_a_carried_tag_stands_first(cycle.drop_last(), tag);
        let i = choose|i: int| stands_first(cycle.drop_last(), tag, i);
        assert forall|j: int| 0 <= j < i implies #[trigger] cycle[j] != tag by {
            assert(cycle.drop_last()[j] != tag);
        }
        assert(stands_first(cycle, tag, i));
    } else {
        let k = choose|k: int| 0 <= k < cycle.len() && cycle[k] == tag;
        assert forall|j: int| 0 <= j < last implies #[trigger] cycle[j] != tag by {
            assert(cycle.drop_last()[j] == cycle[j]);
            assert(!cycle.drop_last().contains(tag));
        }
        assert(k == last);
        assert(stands_first(cycle, tag, last));
    }
}

/// Returns the layout after `current` in the cycle, wrapping.
///
/// A layout outside the cycle, and an unmapped one, both go to the cycle's first entry. An empty
/// cycle has no next layout at all.
pub fn next(cycle: &[LayoutTag], current: Option<&LayoutTag>) -> (after: Option<LayoutTag>)
    ensures
        tag_text(after) == next_tag(
            tags(cycle@),
            match current {
                Some(current) => Some(current@),
                None => None,
            },
        ),
{
    if cycle.len() == 0 {
        return None;
    }
    let Some(sought) = current else {
        return Some(cycle[0].clone());
    };
    let len: usize = cycle.len();
    let mut index: usize = 0;
    while index < len
        invariant
            len == cycle@.len(),
            len > 0,
            current == Some(sought),
            index <= len,
            forall|j: int| 0 <= j < index ==> (#[trigger] tags(cycle@)[j]) != sought@,
        decreases len - index,
    {
        if cycle[index].same(sought) {
            assert(stands_first(tags(cycle@), sought@, index as int));
            proof {
                lemma_first_standing_is_unique(tags(cycle@), sought@, index as int);
            }
            if index + 1 < len {
                return Some(cycle[index + 1].clone());
            }
            return Some(cycle[0].clone());
        }
        index += 1;
    }
    assert(!tags(cycle@).contains(sought@));
    Some(cycle[0].clone())
}

/// Whatever comes next stands in the cycle, and only an empty cycle has nothing next.
pub proof fn the_next_layout_is_one_of_the_cycle(cycle: Seq<Seq<char>>, current: Option<Seq<char>>)
    ensures
        next_tag(cycle, current) is None <==> cycle.len() == 0,
        next_tag(cycle, current) matches Some(after) ==> cycle.contains(after),
{
    if cycle.len() > 0 && current is Some && cycle.contains(current->0) {
        lemma_a_carried_tag_stands_first(cycle, current->0);
    }
}

/// Where no tag stands twice, the tag after the one at `i` is the one at `i + 1`, and the one
/// after the last is the first.
pub proof fn the_cycle_is_walked_in_order(cycle: Seq<Seq<char>>, i: int)
    requires
        cycle.no_duplicates(),
        0 <= i < cycle.len(),
    ensures
        next_tag(cycle, Some(cycle[i])) == Some(
            if i + 1 < cycle.len() {
                cycle[i + 1]
            } else {
                cycle[0]
            },
        ),
{
    assert(stands_first(cycle, cycle[i], i));
    lemma_first_standing_is_unique(cycle, cycle[i], i);
}

/// A cycle of at least two entries in which no tag stands twice never steps to the layout that is
/// selected already, so every step is a change somebody is told of.
pub proof fn a_step_always_changes_the_layout(cycle: Seq<Seq<char>>, current: Seq<char>)
    requires
        cycle.no_duplicates(),
        cycle.len() >= 2,
    ensures
        next_tag(cycle, Some(current)) != Some(current),
{
    if cycle.contains(current) {
        let i = choose|i: int| 0 <= i < cycle.len() && cycle[i] == current;
        the_cycle_is_walked_in_order(cycle, i);
    } else {
        assert(cycle[0] != current);
    }
}

/// The tag `steps` steps after `current`.
pub open spec fn after_steps(
    cycle: Seq<Seq<char>>,
    current: Option<Seq<char>>,
    steps: nat,
) -> Option<Seq<char>>
    decreases steps,
{
    if steps == 0 {
        current
    } else {
        next_tag(cycle, after_steps(cycle, current, (steps - 1) as nat))
    }
}

/// As many steps as the cycle has entries lead back to where they started.
pub proof fn a_full_round_comes_back(cycle: Seq<Seq<char>>, i: int)
    requires
        cycle.no_duplicates(),
        0 <= i < cycle.len(),
    ensures
        after_steps(cycle, Some(cycle[i]), cycle.len()) == Some(cycle[i]),
{
    lemma_steps_land(cycle, i, cycle.len());
    assert((i + cycle.len()) % (cycle.len() as int) == i) by (nonlinear_arith)
        requires
            0 <= i < cycle.len(),
    ;
}

proof fn lemma_steps_land(cycle: Seq<Seq<char>>, i: int, steps: nat)
    requires
        cycle.no_duplicates(),
        0 <= i < cycle.len(),
    ensures
        after_steps(cycle, Some(cycle[i]), steps) == Some(
            cycle[(i + steps) % (cycle.len() as int)],
        ),
    decreases steps,
{
    let len = cycle.len() as int;
    if steps == 0 {
        assert((i + steps) % len == i) by (nonlinear_arith)
            requires
                0 <= i < len,
                steps == 0,
        ;
    } else {
        lemma_steps_land(cycle, i, (steps - 1) as nat);
        let at = (i + steps - 1) % len;
        vstd::arithmetic::div_mod::lemma_mod_bound(i + steps - 1, len);
        the_cycle_is_walked_in_order(cycle, at);
        vstd::arithmetic::div_mod::lemma_add_mod_noop(at, 1, len);
        vstd::arithmetic::div_mod::lemma_add_mod_noop(i + steps - 1, 1, len);
        vstd::arithmetic::div_mod::lemma_mod_twice(i + steps - 1, len);
        if at + 1 < len {
            vstd::arithmetic::div_mod::lemma_small_mod((at + 1) as nat, len as nat);
        } else {
            vstd::arithmetic::div_mod::lemma_mod_self_0(len);
        }
    }
}

/// The tag after the one that stands first at `i` is the one right behind it, and behind the last
/// one the first again, whatever else the cycle carries.
pub proof fn the_next_layout_stands_right_behind(cycle: Seq<Seq<char>>, i: int)
    requires
        0 <= i < cycle.len(),
        forall|j: int| 0 <= j < i ==> #[trigger] cycle[j] != cycle[i],
    ensures
        next_tag(cycle, Some(cycle[i])) == Some(cycle[(i + 1) % (cycle.len() as int)]),
{
    assert(stands_first(cycle, cycle[i], i));
    lemma_first_standing_is_unique(cycle, cycle[i], i);
    if i + 1 < cycle.len() {
        vstd::arithmetic::div_mod::lemma_small_mod((i + 1) as nat, cycle.len());
    } else {
        vstd::arithmetic::div_mod::lemma_mod_self_0(cycle.len() as int);
    }
}

/// A layout outside the cycle, and one no tag names, both go to the first entry.
pub proof fn anything_outside_the_cycle_goes_to_its_first_entry(
    cycle: Seq<Seq<char>>,
    current: Option<Seq<char>>,
)
    requires
        cycle.len() > 0,
        forall|i: int| 0 <= i < cycle.len() ==> current != Some(#[trigger] cycle[i]),
    ensures
        next_tag(cycle, current) == Some(cycle[0]),
{
    if current is Some && cycle.contains(current->0) {
        let i = choose|i: int| 0 <= i < cycle.len() && cycle[i] == current->0;
        assert(current != Some(cycle[i]));
    }
}

/// A tag is what it spells, and no tag is none.
pub proof fn a_tag_is_what_it_spells(tag: LayoutTag)
    ensures
        tag_text(Some(tag)) == Some(tag.0@),
        tag_text(None) is None,
{
}

} // verus!
