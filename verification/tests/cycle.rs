//! The layout cycle.

use moji::cycle::next;
use moji::macos::tis::LayoutTag;

fn tag(tag: &str) -> LayoutTag {
    LayoutTag(tag.to_string())
}

#[test]
fn cycle_the_cycle_wraps() {
    let cycle = vec![tag("en"), tag("ru")];

    assert_eq!(next(&cycle, Some(&tag("en"))), Some(tag("ru")));
    assert_eq!(next(&cycle, Some(&tag("ru"))), Some(tag("en")));
}

#[test]
fn cycle_a_layout_outside_the_cycle_goes_to_its_first_entry() {
    let cycle = vec![tag("en"), tag("ru")];

    assert_eq!(next(&cycle, Some(&tag("de"))), Some(tag("en")));
}

#[test]
fn cycle_an_unmapped_layout_goes_to_the_first_entry_of_the_cycle() {
    let cycle = vec![tag("en"), tag("ru")];

    assert_eq!(next(&cycle, None), Some(tag("en")));
}

#[test]
fn an_empty_cycle_has_no_next_layout() {
    assert_eq!(next(&[], None), None);
    assert_eq!(next(&[], Some(&tag("en"))), None);
}

#[test]
fn a_full_round_of_three_layouts_comes_back_in_order() {
    let cycle = vec![tag("en"), tag("ru"), tag("de")];

    assert_eq!(next(&cycle, Some(&tag("en"))), Some(tag("ru")));
    assert_eq!(next(&cycle, Some(&tag("ru"))), Some(tag("de")));
    assert_eq!(next(&cycle, Some(&tag("de"))), Some(tag("en")));
}

#[test]
fn a_tag_that_stands_twice_is_walked_from_where_it_stands_first() {
    let cycle = vec![tag("en"), tag("ru"), tag("en"), tag("de")];

    assert_eq!(next(&cycle, Some(&tag("en"))), Some(tag("ru")));
}
