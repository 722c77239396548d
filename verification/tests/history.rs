//! The history of what was typed, and what a flip makes of it.

use moji::barrier::{EventKind, KeyEvent, Stroke, RETYPE_KEYCODE, SWITCH_KEYCODE};
use moji::history::{
    action, Action, Flip, History, Kind, CAP, COMMAND, CONTROL, DELETE, SPACE,
};
use moji::macos::tis::LayoutTag;

const CLEARING: [u16; 13] = [36, 76, 48, 53, 115, 116, 119, 121, 117, 123, 124, 125, 126];

fn tag(tag: &str) -> LayoutTag {
    LayoutTag(tag.to_string())
}

fn cycle() -> Vec<LayoutTag> {
    vec![tag("en"), tag("ru")]
}

fn typed(text: &str, layout: &str) -> History<usize> {
    let mut history = History::new();
    type_into(&mut history, text, layout);
    history
}

fn type_into(history: &mut History<usize>, text: &str, layout: &str) {
    for character in text.chars() {
        let kind = match character {
            ' ' => Kind::Space,
            _ => Kind::Letter,
        };
        let payload = history.len();
        history.record(kind, Some(tag(layout)), payload);
    }
}

fn key(kind: EventKind, keycode: u16) -> KeyEvent {
    KeyEvent {
        kind,
        keycode,
        flags: 0,
        timestamp: 0,
        stroke: Stroke::First,
    }
}

#[test]
fn letters_and_spaces_are_recorded_under_the_layout_they_were_typed_in() {
    let mut history: History<()> = History::new();

    history.record(Kind::Letter, Some(tag("en")), ());
    history.record(Kind::Space, Some(tag("en")), ());

    assert_eq!(history.len(), 2);
    assert!(!history.is_empty());
    assert_eq!(
        history.flip(&cycle()),
        Some(Flip {
            count: 2,
            target: tag("ru")
        })
    );
}

#[test]
fn erase_drops_the_last_keystroke_and_does_nothing_on_an_empty_history() {
    let mut history: History<()> = History::new();

    history.erase();
    assert_eq!(history.len(), 0);

    history.record(Kind::Letter, Some(tag("en")), ());
    history.erase();

    assert_eq!(history.len(), 0);
    assert!(history.is_empty());
}

#[test]
fn clear_forgets_everything() {
    let mut history: History<()> = History::new();
    history.record(Kind::Letter, Some(tag("en")), ());

    history.clear();

    assert_eq!(history.len(), 0);
    assert_eq!(history.flip(&cycle()), None);
}

#[test]
fn a_keystroke_typed_in_an_unnamed_layout_clears_instead_of_recording() {
    let mut history: History<()> = History::new();
    history.record(Kind::Letter, Some(tag("en")), ());

    history.record(Kind::Letter, None, ());

    assert_eq!(history.len(), 0);
}

#[test]
fn recording_past_the_cap_drops_the_oldest_keystroke() {
    let mut history = History::new();
    for payload in 0..CAP + 1 {
        history.record(Kind::Letter, Some(tag("en")), payload);
    }

    assert_eq!(history.len(), CAP);
    assert_eq!(history.last(CAP).first(), Some(&&1));
}

#[test]
fn keys_that_move_the_caret_out_of_reach_clear_the_history() {
    for keycode in CLEARING {
        assert_eq!(
            action(key(EventKind::Down, keycode)),
            Action::Clear,
            "keycode {keycode} must clear the history"
        );
    }
}

#[test]
fn a_click_clears_the_history() {
    assert_eq!(action(key(EventKind::MouseDown, 0)), Action::Clear);
}

#[test]
fn a_command_or_control_chord_clears_the_history() {
    let command = KeyEvent {
        flags: COMMAND,
        ..key(EventKind::Down, 0)
    };
    let control = KeyEvent {
        flags: CONTROL,
        ..key(EventKind::Down, 0)
    };

    assert_eq!(action(command), Action::Clear);
    assert_eq!(action(control), Action::Clear);
}

#[test]
fn delete_erases_once_per_stroke_and_space_and_letters_record() {
    let delete = key(EventKind::Down, DELETE);
    let repeated = KeyEvent {
        stroke: Stroke::Repeat,
        ..delete
    };

    assert_eq!(action(delete), Action::Erase);
    assert_eq!(action(repeated), Action::Erase);
    assert_eq!(
        action(key(EventKind::Down, SPACE)),
        Action::Record(Kind::Space)
    );
    assert_eq!(
        action(key(EventKind::Down, 0)),
        Action::Record(Kind::Letter)
    );
    assert_eq!(
        action(KeyEvent {
            stroke: Stroke::Repeat,
            ..key(EventKind::Down, 0)
        }),
        Action::Record(Kind::Letter)
    );
}

#[test]
fn the_signal_keys_and_everything_that_is_not_a_key_down_leave_the_history_alone() {
    assert_eq!(action(key(EventKind::Up, 0)), Action::Ignore);
    assert_eq!(action(key(EventKind::Flags, 56)), Action::Ignore);
    assert_eq!(action(key(EventKind::Down, SWITCH_KEYCODE)), Action::Ignore);
    assert_eq!(action(key(EventKind::Down, RETYPE_KEYCODE)), Action::Ignore);
}

#[test]
fn an_empty_history_flips_nothing() {
    let mut history: History<()> = History::new();

    assert_eq!(history.flip(&cycle()), None);
}

#[test]
fn the_first_flip_covers_the_last_word_and_the_spaces_after_it() {
    let mut history = typed("ab cd  ", "ru");

    assert_eq!(
        history.flip(&cycle()),
        Some(Flip {
            count: 4,
            target: tag("en")
        })
    );
}

#[test]
fn the_flip_after_it_covers_the_whole_tail_in_the_same_layout() {
    let mut history = typed("ab cd", "ru");
    history.flip(&cycle());

    assert_eq!(
        history.flip(&cycle()),
        Some(Flip {
            count: 5,
            target: tag("en")
        })
    );
}

#[test]
fn a_keystroke_between_two_flips_makes_the_second_one_a_word_again() {
    let mut history = typed("ab cd", "ru");
    history.flip(&cycle());
    type_into(&mut history, "x", "en");

    assert_eq!(
        history.flip(&cycle()),
        Some(Flip {
            count: 3,
            target: tag("ru")
        })
    );
}

#[test]
fn the_tail_stops_where_the_layout_changed() {
    let mut history = typed("ab", "en");
    type_into(&mut history, "cd", "ru");

    assert_eq!(
        history.flip(&cycle()),
        Some(Flip {
            count: 2,
            target: tag("en")
        })
    );
}

#[test]
fn the_flip_after_a_tail_never_reaches_past_the_layout_it_was_typed_in() {
    let mut history = typed("ab", "en");
    type_into(&mut history, "cd", "ru");
    history.flip(&cycle());

    assert_eq!(
        history.flip(&cycle()),
        Some(Flip {
            count: 2,
            target: tag("ru")
        })
    );
}

#[test]
fn a_flipped_tail_carries_the_target_tag_so_the_flip_after_it_goes_back() {
    let mut history = typed("ab cd", "ru");
    history.flip(&cycle());
    history.flip(&cycle());

    assert_eq!(
        history.flip(&cycle()),
        Some(Flip {
            count: 5,
            target: tag("ru")
        })
    );
}

#[test]
fn a_sentence_typed_in_one_layout_flips_word_first_then_whole_then_back() {
    let mut history = typed("app version", "ru");

    assert_eq!(
        history.flip(&cycle()),
        Some(Flip {
            count: 7,
            target: tag("en")
        })
    );
    assert_eq!(
        history.flip(&cycle()),
        Some(Flip {
            count: 11,
            target: tag("en")
        })
    );
    assert_eq!(
        history.flip(&cycle()),
        Some(Flip {
            count: 11,
            target: tag("ru")
        })
    );
}

#[test]
fn a_layout_outside_the_cycle_flips_to_its_first_entry() {
    let mut history = typed("ab", "de");

    assert_eq!(
        history.flip(&cycle()),
        Some(Flip {
            count: 2,
            target: tag("en")
        })
    );
}

#[test]
fn an_empty_cycle_flips_nothing_and_leaves_the_history_alone() {
    let mut history = typed("ab cd", "ru");

    assert_eq!(history.flip(&[]), None);

    assert_eq!(
        history.flip(&cycle()),
        Some(Flip {
            count: 2,
            target: tag("en")
        })
    );
}

#[test]
fn the_last_keystrokes_come_back_in_the_order_they_were_typed() {
    let history = typed("abc", "en");

    assert_eq!(history.last(2), vec![&1, &2]);
    assert_eq!(history.last(9).len(), 3);
}

#[test]
fn a_plan_answers_what_the_flip_does_and_changes_nothing() {
    let mut history = typed("ab cd", "ru");

    assert_eq!(
        history.planned(&cycle()),
        Some(Flip {
            count: 2,
            target: tag("en")
        })
    );
    assert_eq!(history.planned(&cycle()), history.planned(&cycle()));
    let planned = history.planned(&cycle());
    assert_eq!(history.flip(&cycle()), planned);
    assert_eq!(
        history.planned(&cycle()),
        Some(Flip {
            count: 5,
            target: tag("en")
        })
    );
}

#[test]
fn a_flip_loses_no_keystroke_and_keeps_their_order() {
    let mut history = typed("ab cd", "ru");
    history.flip(&cycle());
    history.flip(&cycle());

    assert_eq!(history.len(), 5);
    assert_eq!(history.last(5), vec![&0, &1, &2, &3, &4]);
}

#[test]
fn deleting_after_a_flip_makes_the_next_press_a_word_again() {
    let mut history = typed("ab cd", "ru");
    history.flip(&cycle());
    history.erase();

    assert_eq!(
        history.flip(&cycle()),
        Some(Flip {
            count: 1,
            target: tag("ru")
        })
    );
}

#[test]
fn a_run_that_lost_its_first_keystroke_to_the_cap_still_flips_as_a_whole() {
    let mut history = History::new();
    for payload in 0..CAP + 3 {
        history.record(Kind::Letter, Some(tag("ru")), payload);
    }

    assert_eq!(
        history.flip(&cycle()),
        Some(Flip {
            count: CAP,
            target: tag("en")
        })
    );
}

#[test]
fn a_default_history_is_empty() {
    let history: History<u8> = History::default();

    assert!(history.is_empty());
    assert_eq!(history.planned(&cycle()), None);
}

#[test]
fn with_three_layouts_the_whole_run_follows_its_last_word_and_then_moves_on() {
    let cycle = vec![tag("en"), tag("ru"), tag("de")];
    let mut history = typed("ab cd", "ru");

    for (count, target) in [(2, "de"), (5, "de"), (5, "en"), (5, "ru")] {
        assert_eq!(
            history.flip(&cycle),
            Some(Flip {
                count,
                target: tag(target)
            })
        );
    }
}

#[test]
fn a_run_of_spaces_alone_flips_as_a_word() {
    let mut history = typed("   ", "ru");

    assert_eq!(
        history.flip(&cycle()),
        Some(Flip {
            count: 3,
            target: tag("en")
        })
    );
}
