//! What the tap makes of an event, and the queue of the events it holds back.

use moji::barrier::{EventKind, KeyEvent, Stroke, Verdict};
use moji::macos::tap::{
    answer, backspace_pair, delivered, disables_tap, is_replayed, key_event, mark_replayed, missing_access,
    Access, Answer, CarriedEvent, Copies, Deletions, EventType, Held, HeldEvent, Kept, TapError,
    BACKSPACE_KEYCODE, REPLAY_MAGIC,
};
use moji::clock::{MILLISECOND, SECOND};
use moji::macos::timer::{Repeat, TimerError, QUIET};

const KEYCODE_A: u16 = 0;
const SHIFT: u64 = 0x2_0000;

fn keyboard_event(keycode: u16, down: bool) -> CarriedEvent {
    CarriedEvent {
        kind: if down {
            EventType::KeyDown
        } else {
            EventType::KeyUp
        },
        keycode: i64::from(keycode),
        autorepeat: 0,
        flags: 0,
        timestamp: 0,
        user_data: 0,
    }
}

fn captured(keycode: u16, handle: &'static str) -> HeldEvent<&'static str> {
    let Some(captured) = HeldEvent::capture(keyboard_event(keycode, true), Some(handle)) else {
        panic!("capturing a keyboard event failed");
    };
    captured
}

fn copies(down: &'static str, up: &'static str) -> Copies<&'static str> {
    Copies {
        down: Some(down),
        up: Some(up),
    }
}

#[test]
fn a_marked_event_reads_back_as_replayed() {
    let event = mark_replayed(keyboard_event(KEYCODE_A, true));

    assert_eq!(event.user_data, REPLAY_MAGIC);
    assert!(is_replayed(event.user_data));
}

#[test]
fn an_untouched_event_is_not_a_replay() {
    let event = keyboard_event(KEYCODE_A, true);

    assert!(!is_replayed(event.user_data));
}

#[test]
fn user_data_that_is_not_the_magic_is_not_a_replay() {
    assert!(!is_replayed(0));
    assert!(!is_replayed(REPLAY_MAGIC + 1));
    assert!(!is_replayed(-1));
}

#[test]
fn a_key_down_reads_its_kind_and_keycode() {
    let event = keyboard_event(KEYCODE_A, true);

    let Some(KeyEvent {
        kind,
        keycode,
        flags: _,
        timestamp: _,
        stroke: _,
    }) = key_event(event)
    else {
        panic!("a keyDown event is not a key event");
    };

    assert_eq!(kind, EventKind::Down);
    assert_eq!(keycode, KEYCODE_A);
}

#[test]
fn a_repeated_key_down_reads_as_a_repeat_stroke() {
    let event = CarriedEvent {
        autorepeat: 1,
        ..keyboard_event(KEYCODE_A, true)
    };

    let Some(KeyEvent {
        kind,
        keycode: _,
        flags: _,
        timestamp: _,
        stroke,
    }) = key_event(event)
    else {
        panic!("a repeated keyDown event is not a key event");
    };

    assert_eq!(kind, EventKind::Down);
    assert_eq!(stroke, Stroke::Repeat);
}

#[test]
fn a_key_up_reads_its_kind_and_keycode() {
    let event = keyboard_event(7, false);

    let Some(KeyEvent {
        kind,
        keycode,
        flags: _,
        timestamp: _,
        stroke: _,
    }) = key_event(event)
    else {
        panic!("a keyUp event is not a key event");
    };

    assert_eq!(kind, EventKind::Up);
    assert_eq!(keycode, 7);
}

#[test]
fn a_flags_change_reads_as_a_flags_event() {
    let event = CarriedEvent {
        kind: EventType::FlagsChanged,
        ..keyboard_event(56, true)
    };

    let Some(KeyEvent {
        kind,
        keycode,
        flags: _,
        timestamp: _,
        stroke: _,
    }) = key_event(event)
    else {
        panic!("a flagsChanged event is not a key event");
    };

    assert_eq!(kind, EventKind::Flags);
    assert_eq!(keycode, 56);
}

#[test]
fn an_event_that_carries_no_key_is_not_a_key_event() {
    let event = CarriedEvent {
        kind: EventType::Other(22),
        ..keyboard_event(KEYCODE_A, true)
    };

    assert!(key_event(event).is_none());
    assert!(delivered(event).is_none());
}

#[test]
fn a_key_event_carries_the_flags_and_the_timestamp_and_the_low_bits_of_the_keycode() {
    let event = CarriedEvent {
        keycode: 0x1_0050,
        flags: SHIFT,
        timestamp: 99,
        ..keyboard_event(KEYCODE_A, true)
    };

    assert_eq!(
        key_event(event),
        Some(KeyEvent {
            kind: EventKind::Down,
            keycode: 80,
            flags: SHIFT,
            timestamp: 99,
            stroke: Stroke::First,
        })
    );
}

#[test]
fn a_replay_is_never_delivered_and_anything_else_is() {
    let event = keyboard_event(7, true);

    assert_eq!(delivered(event), key_event(event));
    assert_eq!(delivered(mark_replayed(event)), None);
}

#[test]
fn only_the_two_disabled_kinds_ask_for_the_tap_again() {
    assert!(disables_tap(EventType::TapDisabledByTimeout));
    assert!(disables_tap(EventType::TapDisabledByUserInput));
    assert!(!disables_tap(EventType::KeyDown));
    assert!(!disables_tap(EventType::Other(5)));
}

#[test]
fn an_empty_queue_drains_to_nothing() {
    let mut held: Held<&str> = Held::empty();

    assert!(held.is_empty());
    assert!(held.drain().is_empty());
}

#[test]
fn a_kept_event_waits_until_it_is_replayed() {
    let mut held = Held::empty();
    let event = keyboard_event(KEYCODE_A, true);

    let Kept::Yes = held.keep(HeldEvent::capture(event, Some("copy"))) else {
        panic!("keeping a keyboard event failed");
    };

    assert_eq!(held.len(), 1);
    assert!(!is_replayed(event.user_data));

    let posted = held.replay();
    assert_eq!(
        posted,
        vec![HeldEvent {
            carried: mark_replayed(event),
            handle: "copy",
        }]
    );
    assert!(held.is_empty());
}

#[test]
fn an_event_that_could_not_be_copied_is_not_kept() {
    let mut held: Held<&str> = Held::empty();

    assert_eq!(held.keep(HeldEvent::capture(keyboard_event(7, true), None)), Kept::No);
    assert!(held.is_empty());
}

#[test]
fn draining_empties_the_queue_and_keeps_arrival_order() {
    let mut held = Held::empty();
    let Kept::Yes = held.keep(Some(captured(KEYCODE_A, "first"))) else {
        panic!("keeping a keyboard event failed");
    };
    let Kept::Yes = held.keep(Some(captured(7, "second"))) else {
        panic!("keeping a keyboard event failed");
    };

    let drained = held.drain();
    let mut keycodes = Vec::new();
    for event in &drained {
        keycodes.push(event.carried.keycode);
    }

    assert_eq!(keycodes, vec![i64::from(KEYCODE_A), 7]);
    assert!(held.is_empty());
    assert!(held.drain().is_empty());
}

#[test]
fn every_mouse_down_reads_as_a_mouse_down_event() {
    for kind in [
        EventType::LeftMouseDown,
        EventType::RightMouseDown,
        EventType::OtherMouseDown,
    ] {
        let event = CarriedEvent {
            kind,
            ..keyboard_event(KEYCODE_A, true)
        };

        let Some(KeyEvent {
            kind,
            keycode: _,
            flags: _,
            timestamp: _,
            stroke: _,
        }) = key_event(event)
        else {
            panic!("a mouse-down event is not a key event");
        };

        assert_eq!(kind, EventKind::MouseDown);
    }
}

#[test]
fn a_captured_event_is_a_copy_carrying_the_same_keycode_and_flags() {
    let event = CarriedEvent {
        flags: SHIFT,
        ..keyboard_event(7, true)
    };

    let Some(captured) = HeldEvent::capture(event, Some("captured")) else {
        panic!("capturing a keyboard event failed");
    };
    let Some(duplicate) = captured.duplicate(Some("duplicate")) else {
        panic!("duplicating a captured event failed");
    };

    assert_eq!(captured.carried.keycode, 7);
    assert_eq!(duplicate.carried.keycode, 7);
    assert_eq!(duplicate.carried.flags, SHIFT);
    assert_ne!(captured.handle, duplicate.handle);
    assert!(captured.duplicate(None).is_none());
}

#[test]
fn a_captured_event_survives_its_source_being_dropped() {
    let captured = {
        let event = keyboard_event(7, true);
        let Some(captured) = HeldEvent::capture(event, Some("captured")) else {
            panic!("capturing a keyboard event failed");
        };
        captured
    };

    assert_eq!(captured.carried.keycode, 7);
}

#[test]
fn a_pushed_stroke_is_a_key_down_then_a_key_up_of_the_same_key() {
    let mut held = Held::empty();
    let captured = captured(7, "captured");

    let Kept::Yes = held.push_strokes(&vec![&captured], vec![copies("down", "up")]) else {
        panic!("pushing a captured stroke into the queue failed");
    };

    let drained = held.drain();
    let mut strokes = Vec::new();
    for event in &drained {
        strokes.push((event.carried.kind, event.carried.keycode, event.handle));
    }

    assert_eq!(
        strokes,
        vec![(EventType::KeyDown, 7, "down"), (EventType::KeyUp, 7, "up")]
    );
}

#[test]
fn a_pushed_stroke_leaves_the_captured_event_a_key_down() {
    let mut held = Held::empty();
    let captured = captured(7, "captured");

    let Kept::Yes = held.push_strokes(
        &vec![&captured, &captured],
        vec![copies("a", "b"), copies("c", "d")],
    ) else {
        panic!("pushing a captured stroke into the queue failed");
    };

    assert_eq!(captured.carried.kind, EventType::KeyDown);
    assert_eq!(held.len(), 4);
}

#[test]
fn a_copy_that_failed_leaves_the_queue_exactly_as_it_was() {
    let mut held = Held::empty();
    assert_eq!(held.keep(Some(captured(1, "waiting"))), Kept::Yes);
    let stroke = captured(7, "captured");

    let without_up = Copies {
        down: Some("c"),
        up: None,
    };
    assert_eq!(
        held.push_strokes(&vec![&stroke, &stroke], vec![copies("a", "b"), without_up]),
        Kept::No
    );
    let without_down = Copies {
        down: None,
        up: Some("d"),
    };
    assert_eq!(held.push_strokes(&vec![&stroke], vec![without_down]), Kept::No);

    assert_eq!(held.drain(), vec![captured(1, "waiting")]);
}

#[test]
fn every_deletion_is_built_before_any_of_them_is_posted() {
    let made = vec![copies("a", "b"), copies("c", "d"), copies("e", "f")];
    let Some(deletions) = Deletions::built(3, made) else {
        panic!("building the deletions failed");
    };

    let mut built = Vec::new();
    for event in &deletions.post() {
        built.push((event.carried.kind, event.carried.keycode));
        assert!(is_replayed(event.carried.user_data));
    }

    let keycode = i64::from(BACKSPACE_KEYCODE);
    assert_eq!(
        built,
        vec![
            (EventType::KeyDown, keycode),
            (EventType::KeyUp, keycode),
            (EventType::KeyDown, keycode),
            (EventType::KeyUp, keycode),
            (EventType::KeyDown, keycode),
            (EventType::KeyUp, keycode),
        ]
    );
}

#[test]
fn a_deletion_that_could_not_be_made_builds_nothing() {
    let failed = Copies {
        down: Some("c"),
        up: None,
    };

    assert!(Deletions::built(2, vec![copies("a", "b"), failed]).is_none());
}

#[test]
fn nothing_to_delete_builds_no_stroke_at_all() {
    let Some(deletions) = Deletions::<&str>::built(0, Vec::new()) else {
        panic!("building no deletion at all failed");
    };

    assert!(deletions.post().is_empty());
}

#[test]
fn a_backspace_pair_is_keycode_fifty_one_marked_as_a_replay() {
    let Some((down, up)) = backspace_pair(copies("down", "up")) else {
        panic!("creating a backspace pair failed");
    };

    assert_eq!(down.carried.keycode, i64::from(BACKSPACE_KEYCODE));
    assert_eq!(up.carried.keycode, i64::from(BACKSPACE_KEYCODE));
    assert_eq!(BACKSPACE_KEYCODE, 51);
    assert_eq!(down.carried.kind, EventType::KeyDown);
    assert_eq!(up.carried.kind, EventType::KeyUp);
    assert!(is_replayed(down.carried.user_data));
    assert!(is_replayed(up.carried.user_data));
    assert_eq!((down.handle, up.handle), ("down", "up"));
}

#[test]
fn a_verdict_is_carried_out_and_a_held_event_that_cannot_be_kept_goes_on() {
    let mut held = Held::empty();

    assert_eq!(held.carry_out(Verdict::Pass, Some(captured(1, "a"))), Answer::PassOn);
    assert_eq!(held.carry_out(Verdict::Swallow, Some(captured(1, "a"))), Answer::Drop);
    assert_eq!(held.carry_out(Verdict::Hold, None), Answer::PassOn);
    assert!(held.is_empty());

    assert_eq!(held.carry_out(Verdict::Hold, Some(captured(1, "a"))), Answer::Drop);
    assert_eq!(held.len(), 1);

    assert_eq!(answer(Verdict::Pass, false), Answer::PassOn);
    assert_eq!(answer(Verdict::Swallow, false), Answer::Drop);
    assert_eq!(answer(Verdict::Hold, false), Answer::PassOn);
    assert_eq!(answer(Verdict::Hold, true), Answer::Drop);
}

#[test]
fn every_access_names_the_pane_that_grants_it() {
    assert!(Access::Listen.pane().contains("Input Monitoring"));
    assert!(Access::Post.pane().contains("Accessibility"));
}

#[test]
fn the_missing_grants_are_the_ones_the_system_does_not_report() {
    assert_eq!(missing_access(true, true), vec![]);
    assert_eq!(missing_access(false, true), vec![Access::Listen]);
    assert_eq!(missing_access(true, false), vec![Access::Post]);
    assert_eq!(missing_access(false, false), vec![Access::Listen, Access::Post]);
}

#[test]
fn a_timer_that_waits_to_be_armed_is_quiet_for_a_day() {
    assert_eq!(Repeat::Never.interval(), 86_400 * SECOND);
    assert_eq!(QUIET, 86_400 * SECOND);
    assert_eq!(Repeat::Every(50 * MILLISECOND).interval(), 50 * MILLISECOND);
}

#[test]
fn every_tap_and_timer_error_is_said_in_full() {
    assert_eq!(
        TapError::NotCreated.to_string(),
        "creating the keyboard event tap failed: this process has no Input Monitoring grant"
    );
    assert_eq!(
        TapError::NoSource.to_string(),
        "the keyboard event tap has no run loop source"
    );
    assert_eq!(
        TapError::NoRunLoop.to_string(),
        "this thread has no run loop, so the keyboard tap would never fire"
    );
    assert_eq!(
        TimerError::NotCreated.to_string(),
        "creating the run loop timer failed"
    );
    assert_eq!(
        TimerError::NoRunLoop.to_string(),
        "this thread has no run loop, so a timer on it would never fire"
    );
}
