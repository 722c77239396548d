//! Where the keyboard goes.

use moji::clock::MILLISECOND;
use moji::macos::focus::{moved, POLL};
use moji::macos::workspace::BundleId;

fn app(bundle: &str) -> BundleId {
    BundleId(bundle.to_string())
}

#[test]
fn the_keyboard_moving_to_another_application_is_reported() {
    assert_eq!(
        moved(
            Some(&app("com.umputun.agterm")),
            Some(app("com.brnbw.Tuna"))
        ),
        Some(app("com.brnbw.Tuna"))
    );
}

#[test]
fn the_same_application_again_is_not_a_move() {
    assert_eq!(
        moved(Some(&app("com.brnbw.Tuna")), Some(app("com.brnbw.Tuna"))),
        None
    );
}

#[test]
fn the_first_reading_is_a_move() {
    assert_eq!(
        moved(None, Some(app("com.brnbw.Tuna"))),
        Some(app("com.brnbw.Tuna"))
    );
}

#[test]
fn an_unreadable_focus_leaves_the_last_application_standing() {
    assert_eq!(moved(Some(&app("com.brnbw.Tuna")), None), None);
    assert_eq!(moved(None, None), None);
}

#[test]
fn a_bundle_id_prints_as_itself() {
    let bundle = BundleId("com.brnbw.Tuna".to_string());

    assert_eq!(bundle.to_string(), "com.brnbw.Tuna");
}

#[test]
fn two_bundle_ids_are_equal_only_when_they_spell_the_same() {
    assert_eq!(
        BundleId("com.brnbw.Tuna".to_string()),
        BundleId("com.brnbw.Tuna".to_string())
    );
    assert_ne!(
        BundleId("com.brnbw.Tuna".to_string()),
        BundleId("com.brnbw.tuna".to_string())
    );
}

#[test]
fn the_focus_is_read_every_fifty_milliseconds() {
    assert_eq!(POLL, 50 * MILLISECOND);
}
