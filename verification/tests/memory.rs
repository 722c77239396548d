//! Which layout each application gets.

use moji::macos::tis::LayoutTag;
use moji::macos::workspace::BundleId;
use moji::memory::Memory;
use moji::ordered::OrderedMap;

fn tag(tag: &str) -> LayoutTag {
    LayoutTag(tag.to_string())
}

fn bundle(bundle: &str) -> BundleId {
    BundleId(bundle.to_string())
}

fn pinned(pairs: &[(&str, &str)]) -> Memory {
    let mut pins = OrderedMap::new();
    for (app, layout) in pairs {
        pins.insert(bundle(app), tag(layout));
    }
    Memory::new(pins)
}

#[test]
fn a_pinned_app_gets_its_pin_however_it_was_last_used() {
    let mut memory = pinned(&[("com.brnbw.Tuna", "en")]);
    memory.on_layout_changed(bundle("com.brnbw.Tuna"), Some(tag("ru")));

    assert_eq!(
        memory.on_activated(bundle("com.brnbw.Tuna"), Some(tag("ru"))),
        Some(tag("en"))
    );
}

#[test]
fn a_remembered_app_gets_the_layout_that_was_recorded_for_it() {
    let mut memory = pinned(&[]);
    memory.on_layout_changed(bundle("com.tinyspeck.slackmacgap"), Some(tag("ru")));

    assert_eq!(
        memory.on_activated(bundle("com.tinyspeck.slackmacgap"), Some(tag("en"))),
        Some(tag("ru"))
    );
}

#[test]
fn an_app_nothing_is_known_about_keeps_whatever_is_selected() {
    let mut memory = pinned(&[("com.brnbw.Tuna", "en")]);

    assert_eq!(
        memory.on_activated(bundle("com.apple.Safari"), Some(tag("ru"))),
        None
    );
}

#[test]
fn recording_for_one_app_leaves_another_alone() {
    let mut memory = pinned(&[]);
    memory.on_layout_changed(bundle("com.apple.Safari"), Some(tag("ru")));

    assert_eq!(
        memory.on_activated(bundle("com.apple.Terminal"), Some(tag("en"))),
        None
    );
    assert_eq!(
        memory.on_activated(bundle("com.apple.Safari"), Some(tag("en"))),
        Some(tag("ru"))
    );
}

#[test]
fn an_app_that_never_switched_still_comes_back_to_its_layout() {
    let mut memory = pinned(&[("com.brnbw.Tuna", "en")]);

    assert_eq!(
        memory.on_activated(bundle("com.tinyspeck.slackmacgap"), Some(tag("ru"))),
        None
    );
    assert_eq!(
        memory.on_activated(bundle("com.brnbw.Tuna"), Some(tag("ru"))),
        Some(tag("en"))
    );
    assert_eq!(
        memory.on_activated(bundle("com.tinyspeck.slackmacgap"), Some(tag("en"))),
        Some(tag("ru"))
    );
}

#[test]
fn a_pin_that_is_already_selected_selects_nothing() {
    let mut memory = pinned(&[("com.brnbw.Tuna", "en")]);

    assert_eq!(
        memory.on_activated(bundle("com.brnbw.Tuna"), Some(tag("en"))),
        None
    );
}

#[test]
fn a_memory_that_is_already_selected_selects_nothing() {
    let mut memory = pinned(&[]);
    memory.on_layout_changed(bundle("com.apple.Safari"), Some(tag("ru")));

    assert_eq!(
        memory.on_activated(bundle("com.apple.Safari"), Some(tag("ru"))),
        None
    );
}

#[test]
fn an_unmapped_current_layout_records_nothing_and_still_answers() {
    let mut memory = pinned(&[("com.brnbw.Tuna", "en")]);
    memory.on_layout_changed(bundle("com.apple.Safari"), None);

    assert_eq!(memory.on_activated(bundle("com.apple.Safari"), None), None);
    assert_eq!(
        memory.on_activated(bundle("com.brnbw.Tuna"), None),
        Some(tag("en"))
    );
    assert_eq!(memory.on_activated(bundle("com.apple.Safari"), None), None);
}

#[test]
fn the_first_activation_has_no_predecessor_to_record_for() {
    let mut memory = pinned(&[]);

    assert_eq!(
        memory.on_activated(bundle("com.apple.Safari"), Some(tag("ru"))),
        None
    );
}

#[test]
fn a_layout_change_records_for_the_app_it_names() {
    let mut memory = pinned(&[]);
    memory.on_layout_changed(bundle("com.apple.Safari"), Some(tag("ru")));
    memory.on_layout_changed(bundle("com.apple.Safari"), Some(tag("en")));

    assert_eq!(
        memory.on_activated(bundle("com.apple.Safari"), Some(tag("ru"))),
        Some(tag("en"))
    );
}

#[test]
fn a_seeded_application_is_recorded_when_it_is_left() {
    let mut memory = pinned(&[("com.brnbw.Tuna", "en")]);
    memory.seed(bundle("com.apple.Safari"));

    assert_eq!(
        memory.on_activated(bundle("com.brnbw.Tuna"), Some(tag("ru"))),
        Some(tag("en"))
    );
    assert_eq!(
        memory.on_activated(bundle("com.apple.Safari"), Some(tag("en"))),
        Some(tag("ru"))
    );
}

#[test]
fn activating_the_application_in_front_again_asks_for_nothing() {
    let mut memory = pinned(&[]);
    memory.seed(bundle("com.apple.Safari"));

    assert_eq!(
        memory.on_activated(bundle("com.apple.Safari"), Some(tag("ru"))),
        None
    );
}
