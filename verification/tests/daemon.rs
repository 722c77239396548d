//! The daemon, driven without a tap: every reading and every copy is the test's own.

use moji::barrier::{
    EventKind, KeyEvent, Stroke, Verdict, RETYPE_KEYCODE, SETTLE, SWITCH_KEYCODE,
};
use moji::clock::{Instant, MILLISECOND, SECOND};
use moji::daemon::{
    tag_named, Releases, StartError, State, Step, Switch, Task, Watchdog, HOLD,
};
use moji::history::Flip;
use moji::macos::tap::{
    mark_replayed, Answer, CarriedEvent, Copies, EventType, HeldEvent, TapError,
};
use moji::macos::timer::TimerError;
use moji::macos::tis::{resolve, Layout, LayoutTag};
use moji::macos::workspace::BundleId;
use moji::ordered::OrderedMap;

const NOW: Instant = 3 * SECOND;

fn tag(tag: &str) -> LayoutTag {
    LayoutTag(tag.to_string())
}

fn app(bundle: &str) -> BundleId {
    BundleId(bundle.to_string())
}

fn layout(name: &str, id: &str, language: &str) -> Layout {
    Layout {
        name: name.to_string(),
        id: id.to_string(),
        language: Some(language.to_string()),
    }
}

fn english() -> Layout {
    layout(
        "English - Universal",
        "me.tonsky.keyboardlayout.universal.keylayout.English-Universal",
        "en",
    )
}

fn russian() -> Layout {
    layout(
        "Russian - Universal",
        "me.tonsky.keyboardlayout.universal.keylayout.Russian-Universal",
        "ru",
    )
}

fn universal() -> OrderedMap<LayoutTag, Layout> {
    let mut layouts = OrderedMap::new();
    layouts.insert(tag("en"), english());
    layouts.insert(tag("ru"), russian());
    layouts
}

fn cycle() -> Vec<LayoutTag> {
    vec![tag("en"), tag("ru")]
}

fn state() -> State<u32> {
    State::new(cycle(), universal(), OrderedMap::new(), HOLD)
}

fn pinned(bundle: &str, layout: &str) -> State<u32> {
    let mut pins = OrderedMap::new();
    pins.insert(app(bundle), tag(layout));
    State::new(cycle(), universal(), pins, HOLD)
}

fn key(kind: EventKind, keycode: u16) -> KeyEvent {
    KeyEvent {
        kind,
        keycode,
        flags: 0,
        timestamp: 0,
        stroke: Stroke::First,
    }
}

fn carried(kind: EventType, keycode: u16) -> CarriedEvent {
    CarriedEvent {
        kind,
        keycode: i64::from(keycode),
        autorepeat: 0,
        flags: 0,
        timestamp: 0,
        user_data: 0,
    }
}

fn held(keycode: u16, handle: u32) -> HeldEvent<u32> {
    HeldEvent {
        carried: carried(EventType::KeyDown, keycode),
        handle,
    }
}

fn replayed(event: HeldEvent<u32>) -> HeldEvent<u32> {
    HeldEvent {
        carried: mark_replayed(event.carried),
        handle: event.handle,
    }
}

fn backspace(kind: EventType, handle: u32) -> HeldEvent<u32> {
    HeldEvent {
        carried: mark_replayed(carried(kind, 51)),
        handle,
    }
}

fn made(handles: &[(u32, u32)]) -> Vec<Copies<u32>> {
    let mut made = Vec::new();
    for (down, up) in handles {
        made.push(Copies {
            down: Some(*down),
            up: Some(*up),
        });
    }
    made
}

fn quiet() -> Step<u32> {
    Step {
        watchdog: Watchdog::Keep,
        post: Vec::new(),
        task: Task::Nothing,
    }
}

fn type_letter(state: &mut State<u32>, keycode: u16) {
    state.on_typed(key(EventKind::Down, keycode), Some(held(keycode, u32::from(keycode))));
}

fn flip(count: usize, target: &str) -> Flip {
    Flip {
        count,
        target: tag(target),
    }
}

#[test]
fn a_confirmation_updates_the_layout_the_daemon_believes_is_selected() {
    let mut state = state();

    state.confirm(Some(tag("ru")), NOW);

    assert_eq!(state.current(), Some(&tag("ru")));
}

#[test]
fn a_confirmation_of_a_layout_no_tag_names_leaves_the_daemon_without_one() {
    let mut state = state();
    state.confirm(Some(tag("ru")), NOW);

    state.confirm(None, NOW);

    assert_eq!(state.current(), None);
}

#[test]
fn a_typed_key_lands_in_the_history_under_the_layout_the_daemon_believes_is_selected() {
    let mut state = state();
    state.confirm(Some(tag("ru")), NOW);

    type_letter(&mut state, 0);
    type_letter(&mut state, 35);

    assert_eq!(state.history().len(), 2);
    assert_eq!(state.flip(), Some(flip(2, "en")));
}

#[test]
fn a_click_and_a_caret_key_drop_what_the_history_holds() {
    let mut state = state();
    state.confirm(Some(tag("ru")), NOW);

    type_letter(&mut state, 0);
    state.on_typed(key(EventKind::MouseDown, 0), Some(held(0, 0)));
    assert_eq!(state.history().len(), 0);

    type_letter(&mut state, 0);
    state.on_typed(key(EventKind::Down, 123), Some(held(123, 0)));

    assert_eq!(state.history().len(), 0);
}

#[test]
fn delete_erases_one_keystroke_and_a_key_up_leaves_the_history_alone() {
    let mut state = state();
    state.confirm(Some(tag("ru")), NOW);

    type_letter(&mut state, 0);
    type_letter(&mut state, 35);
    state.on_typed(key(EventKind::Up, 35), Some(held(35, 0)));
    assert_eq!(state.history().len(), 2);

    state.on_typed(key(EventKind::Down, 51), Some(held(51, 0)));

    assert_eq!(state.history().len(), 1);
}

#[test]
fn a_keystroke_typed_in_a_layout_no_tag_names_clears_the_history() {
    let mut state = state();
    state.confirm(Some(tag("ru")), NOW);
    type_letter(&mut state, 0);

    state.confirm(None, NOW);
    type_letter(&mut state, 35);

    assert_eq!(state.history().len(), 0);
}

#[test]
fn a_keystroke_that_could_not_be_captured_drops_the_history() {
    let mut state = state();
    state.confirm(Some(tag("ru")), NOW);
    type_letter(&mut state, 0);

    state.on_typed(key(EventKind::Down, 35), None);

    assert_eq!(state.history().len(), 0);
}

#[test]
fn the_keyboard_moving_to_another_application_drops_what_the_history_holds() {
    let mut state = state();
    state.confirm(Some(tag("ru")), NOW);
    type_letter(&mut state, 0);

    state.forget_typed();

    assert_eq!(state.history().len(), 0);
}

#[test]
fn a_retype_with_nothing_typed_posts_nothing_and_holds_nothing() {
    let mut state = state();
    state.confirm(Some(tag("ru")), NOW);

    assert_eq!(state.on_retype(), quiet());

    assert!(state.held().is_empty());
    assert_eq!(state.history().len(), 0);
}

#[test]
fn a_retype_that_cannot_select_its_layout_leaves_the_history_as_it_was() {
    let mut state: State<u32> = State::new(cycle(), OrderedMap::new(), OrderedMap::new(), HOLD);
    state.confirm(Some(tag("ru")), NOW);
    type_letter(&mut state, 0);

    assert_eq!(state.on_retype(), quiet());

    assert!(state.held().is_empty());
    assert_eq!(state.history().len(), 1);
    assert_eq!(state.flip(), Some(flip(1, "en")));
}

#[test]
fn a_refused_select_leaves_the_retype_undone() {
    let mut state = state();
    state.confirm(Some(tag("ru")), NOW);
    type_letter(&mut state, 0);

    assert_eq!(
        state.on_retype().task,
        Task::SelectToRetype {
            flip: flip(1, "en"),
            layout: english(),
        }
    );
    assert_eq!(state.on_retype_selected(flip(1, "en"), false), quiet());

    assert_eq!(state.current(), Some(&tag("ru")));
    assert!(state.held().is_empty());
    assert_eq!(state.history().planned(&cycle()), Some(flip(1, "en")));
}

#[test]
fn a_retype_deletes_the_word_and_replays_it_once_its_layout_is_confirmed() {
    let mut state = state();
    state.confirm(Some(tag("ru")), NOW);
    type_letter(&mut state, 5);
    type_letter(&mut state, 4);

    let (verdict, step) = state.on_key(key(EventKind::Down, RETYPE_KEYCODE), None, None, NOW);
    assert_eq!(verdict, Verdict::Swallow);
    assert_eq!(
        step.task,
        Task::SelectToRetype {
            flip: flip(2, "en"),
            layout: english(),
        }
    );

    let step = state.on_retype_selected(flip(2, "en"), true);
    assert_eq!(
        step.task,
        Task::Retype {
            flip: flip(2, "en"),
            switch: Switch::Needed,
        }
    );
    assert_eq!(state.strokes(2), vec![&held(5, 5), &held(4, 4)]);

    let step = state.retype(
        Switch::Needed,
        made(&[(10, 11), (12, 13)]),
        made(&[(20, 21), (22, 23)]),
        NOW,
    );
    assert_eq!(
        step,
        Step {
            watchdog: Watchdog::Arm(HOLD),
            post: vec![
                backspace(EventType::KeyDown, 10),
                backspace(EventType::KeyUp, 11),
                backspace(EventType::KeyDown, 12),
                backspace(EventType::KeyUp, 13),
            ],
            task: Task::Nothing,
        }
    );
    assert_eq!(state.held_count(), 4);
    assert_eq!(state.history().planned(&cycle()), Some(flip(2, "ru")));

    let step = state.on_confirmation(Some(&english()), NOW);
    assert_eq!(step.watchdog, Watchdog::Arm(SETTLE));

    let step = state.on_deadline(NOW + SETTLE);
    assert_eq!(step.watchdog, Watchdog::Disarm);
    assert_eq!(
        step.post,
        vec![
            replayed(held(5, 20)),
            replayed(HeldEvent {
                carried: carried(EventType::KeyUp, 5),
                handle: 21,
            }),
            replayed(held(4, 22)),
            replayed(HeldEvent {
                carried: carried(EventType::KeyUp, 4),
                handle: 23,
            }),
        ]
    );
    assert_eq!(state.releases(), Releases::default());
}

#[test]
fn a_word_typed_before_a_manual_switch_is_retyped_without_selecting_anything() {
    let mut state = state();
    state.confirm(Some(tag("en")), NOW);
    type_letter(&mut state, 5);
    state.confirm(Some(tag("ru")), NOW);

    assert_eq!(
        state.on_retype().task,
        Task::Retype {
            flip: flip(1, "ru"),
            switch: Switch::Unnecessary,
        }
    );
    let step = state.retype(Switch::Unnecessary, made(&[(10, 11)]), made(&[(20, 21)]), NOW);

    assert_eq!(
        step,
        Step {
            watchdog: Watchdog::Keep,
            post: vec![
                backspace(EventType::KeyDown, 10),
                backspace(EventType::KeyUp, 11),
                replayed(held(5, 20)),
                replayed(HeldEvent {
                    carried: carried(EventType::KeyUp, 5),
                    handle: 21,
                }),
            ],
            task: Task::Nothing,
        }
    );
    assert!(state.held().is_empty());
    assert_eq!(state.held_count(), 0);
}

fn flip_once(state: &mut State<u32>, count: usize, switch: Switch) -> Step<u32> {
    let mut handles = Vec::new();
    for handle in 0..count {
        handles.push((handle as u32, handle as u32));
    }
    state.retype(switch, made(&handles), made(&handles), NOW)
}

#[test]
fn a_sentence_typed_in_the_wrong_layout_is_retyped_word_first_then_whole() {
    let mut state = state();
    state.confirm(Some(tag("ru")), NOW);
    for keycode in [0, 35, 35, 49, 9, 14, 15, 1, 34, 31, 45] {
        type_letter(&mut state, keycode);
    }

    assert_eq!(state.planned(), Some(flip(7, "en")));
    state.on_retype_selected(flip(7, "en"), true);
    let step = flip_once(&mut state, 7, Switch::Needed);
    assert_eq!(step.post.len(), 14);
    assert_eq!(state.held().len(), 14);
    state.on_confirmation(Some(&english()), NOW);
    assert_eq!(state.on_deadline(NOW + SETTLE).post.len(), 14);

    assert_eq!(
        state.on_retype().task,
        Task::Retype {
            flip: flip(11, "en"),
            switch: Switch::Unnecessary,
        }
    );
    let step = flip_once(&mut state, 11, Switch::Unnecessary);
    assert_eq!(step.post.len(), 44);
    assert_eq!(state.planned(), Some(flip(11, "ru")));
}

#[test]
fn a_deletion_that_could_not_be_made_leaves_everything_as_it_was() {
    let mut state = state();
    state.confirm(Some(tag("en")), NOW);
    type_letter(&mut state, 5);

    let missing = vec![Copies {
        down: Some(1),
        up: None,
    }];
    assert_eq!(state.retype(Switch::Needed, missing, made(&[(2, 3)]), NOW), quiet());

    assert_eq!(state.history().planned(&cycle()), Some(flip(1, "ru")));
    assert!(state.held().is_empty());
}

#[test]
fn a_keystroke_that_could_not_be_copied_deletes_nothing_and_drops_the_history() {
    let mut state = state();
    state.confirm(Some(tag("en")), NOW);
    type_letter(&mut state, 5);

    let missing = vec![Copies {
        down: None,
        up: Some(1),
    }];
    assert_eq!(state.retype(Switch::Needed, made(&[(2, 3)]), missing, NOW), quiet());

    assert!(state.history().is_empty());
    assert!(state.held().is_empty());
}

#[test]
fn a_press_of_the_switch_key_selects_the_next_layout_and_arms_the_watchdog() {
    let mut state = state();

    let (verdict, step) = state.on_key(
        key(EventKind::Down, SWITCH_KEYCODE),
        None,
        Some(&english()),
        NOW,
    );

    assert_eq!(verdict, Verdict::Swallow);
    assert_eq!(
        step,
        Step {
            watchdog: Watchdog::Arm(HOLD),
            post: Vec::new(),
            task: Task::Select {
                tag: tag("ru"),
                layout: russian(),
            },
        }
    );
    assert_eq!(state.on_selected(tag("ru"), true), quiet());
    assert_eq!(state.current(), Some(&tag("ru")));
    assert_eq!(state.since_switch_ms(NOW + 12 * MILLISECOND), 12);
}

fn type_into_switch(state: &mut State<u32>, keycode: u16, handle: u32) {
    let (verdict, step) = state.on_key(
        key(EventKind::Down, keycode),
        Some(held(keycode, handle)),
        None,
        NOW,
    );
    assert_eq!(verdict, Verdict::Hold);
    assert_eq!(step, quiet());
    assert_eq!(
        state.carry_out(verdict, Some(held(keycode, handle + 100))),
        Answer::Drop
    );
}

#[test]
fn keys_typed_into_a_switch_are_replayed_in_order_after_the_settle() {
    let mut state = state();
    state.on_key(key(EventKind::Down, SWITCH_KEYCODE), None, Some(&english()), NOW);
    state.on_selected(tag("ru"), true);

    type_into_switch(&mut state, 0, 1);
    type_into_switch(&mut state, 35, 2);
    type_into_switch(&mut state, 9, 3);
    assert_eq!(state.held_count(), 3);

    assert_eq!(
        state.on_confirmation(Some(&russian()), NOW).watchdog,
        Watchdog::Arm(SETTLE)
    );
    assert_eq!(
        state.on_deadline(NOW + SETTLE - MILLISECOND).watchdog,
        Watchdog::Arm(MILLISECOND)
    );
    let step = state.on_deadline(NOW + SETTLE);

    assert_eq!(
        step.post,
        vec![
            replayed(held(0, 101)),
            replayed(held(35, 102)),
            replayed(held(9, 103)),
        ]
    );
    assert!(state.held().is_empty());
    assert_eq!(state.history().planned(&cycle()), Some(flip(3, "en")));
}

#[test]
fn signal_keys_clicks_and_the_confirmation_never_disturb_the_keys_of_a_switch() {
    let mut state = state();
    state.on_key(key(EventKind::Down, SWITCH_KEYCODE), None, Some(&english()), NOW);
    state.on_selected(tag("ru"), true);
    assert!(state.switching());

    let between = [
        (key(EventKind::Up, SWITCH_KEYCODE), Verdict::Swallow),
        (key(EventKind::Down, SWITCH_KEYCODE), Verdict::Swallow),
        (key(EventKind::Down, RETYPE_KEYCODE), Verdict::Swallow),
        (key(EventKind::MouseDown, 0), Verdict::Pass),
    ];
    type_into_switch(&mut state, 0, 1);
    for (event, expected) in between {
        let (verdict, step) = state.on_key(event, None, Some(&russian()), NOW);
        assert_eq!(verdict, expected);
        assert_eq!(step, quiet());
        state.carry_out(verdict, Some(held(99, 99)));
    }
    type_into_switch(&mut state, 35, 2);
    state.on_confirmation(Some(&russian()), NOW);
    type_into_switch(&mut state, 9, 3);
    state.on_activation(app("com.apple.Safari"), Some(&russian()), NOW);
    assert!(state.switching());

    assert_eq!(
        state.on_deadline(NOW + SETTLE).post,
        vec![
            replayed(held(0, 101)),
            replayed(held(35, 102)),
            replayed(held(9, 103)),
        ]
    );
    assert!(!state.switching());
}

#[test]
fn a_switch_nobody_confirms_is_released_and_counted() {
    let mut state = state();
    state.on_key(key(EventKind::Down, SWITCH_KEYCODE), None, Some(&english()), NOW);
    state.on_selected(tag("ru"), true);
    type_into_switch(&mut state, 0, 1);
    type_into_switch(&mut state, 35, 2);

    let step = state.on_deadline(NOW + HOLD);

    assert_eq!(step.watchdog, Watchdog::Disarm);
    assert_eq!(step.post.len(), 2);
    assert_eq!(state.releases(), Releases { count: 1, last: 2 });
    assert_eq!(state.on_deadline(NOW + HOLD), quiet());
}

#[test]
fn a_select_nobody_confirms_is_given_up_without_a_release() {
    let mut state = pinned("com.brnbw.Tuna", "en");
    assert_eq!(state.awaited(), None);
    state.on_activation(app("com.brnbw.Tuna"), Some(&russian()), NOW);
    assert_eq!(state.awaited(), Some(&tag("en")));
    assert!(!state.switching());

    assert_eq!(
        state.on_deadline(NOW + HOLD - MILLISECOND).watchdog,
        Watchdog::Arm(MILLISECOND)
    );
    assert_eq!(state.awaited(), Some(&tag("en")));
    assert_eq!(state.on_deadline(NOW + HOLD), quiet());

    assert_eq!(state.awaited(), None);
    assert_eq!(state.releases(), Releases { count: 0, last: 0 });
}

#[test]
fn a_switch_that_cannot_be_selected_lets_its_keys_go_at_once() {
    let mut state = state();
    state.on_key(key(EventKind::Down, SWITCH_KEYCODE), None, Some(&english()), NOW);
    type_into_switch(&mut state, 0, 1);

    let step = state.on_selected(tag("ru"), false);

    assert_eq!(step.watchdog, Watchdog::Disarm);
    assert_eq!(step.post, vec![replayed(held(0, 101))]);
    assert_eq!(state.current(), None);
    assert_eq!(state.held_count(), 0);
}

#[test]
fn a_switch_to_a_tag_without_a_layout_is_over_before_it_starts() {
    let mut state: State<u32> = State::new(cycle(), OrderedMap::new(), OrderedMap::new(), HOLD);

    let (verdict, step) = state.on_key(key(EventKind::Down, SWITCH_KEYCODE), None, None, NOW);

    assert_eq!(verdict, Verdict::Swallow);
    assert_eq!(step.watchdog, Watchdog::Disarm);
    assert_eq!(step.task, Task::Nothing);
    let (verdict, _) = state.on_key(key(EventKind::Down, 0), Some(held(0, 1)), None, NOW);
    assert_eq!(verdict, Verdict::Pass);
}

#[test]
fn only_the_switch_key_reads_the_selected_layout() {
    let mut state = state();

    state.on_key(key(EventKind::Down, SWITCH_KEYCODE), None, None, NOW);
    assert_eq!(state.on_selected(tag("en"), true), quiet());
    assert_eq!(state.current(), Some(&tag("en")));
}

#[test]
fn moving_to_a_pinned_application_selects_its_pin() {
    let mut state = pinned("com.brnbw.Tuna", "en");
    state.seed_frontmost(Some(app("com.apple.Safari")));
    state.seed_current(Some(&russian()));
    assert_eq!(state.current(), Some(&tag("ru")));
    type_letter(&mut state, 5);

    assert_eq!(
        state.on_focus_poll(Some(app("com.brnbw.Tuna"))),
        Some(app("com.brnbw.Tuna"))
    );
    let step = state.on_activation(app("com.brnbw.Tuna"), Some(&russian()), NOW);
    assert_eq!(step.watchdog, Watchdog::Arm(HOLD));
    assert_eq!(
        step.task,
        Task::Select {
            tag: tag("en"),
            layout: english(),
        }
    );
    assert!(state.history().is_empty());
    state.on_selected(tag("en"), true);
    assert_eq!(state.on_confirmation(Some(&english()), NOW), quiet());

    assert_eq!(
        state.on_focus_poll(Some(app("com.apple.Safari"))),
        Some(app("com.apple.Safari"))
    );
    let step = state.on_activation(app("com.apple.Safari"), Some(&english()), NOW);
    assert_eq!(
        step.task,
        Task::Select {
            tag: tag("ru"),
            layout: russian(),
        }
    );
}

#[test]
fn an_activation_during_a_switch_selects_nothing() {
    let mut state = pinned("com.brnbw.Tuna", "en");
    state.on_key(key(EventKind::Down, SWITCH_KEYCODE), None, Some(&english()), NOW);
    state.on_selected(tag("ru"), true);

    assert_eq!(state.on_activation(app("com.brnbw.Tuna"), Some(&russian()), NOW), quiet());
    assert_eq!(
        state.on_confirmation(Some(&russian()), NOW).watchdog,
        Watchdog::Arm(SETTLE)
    );
}

#[test]
fn an_activation_without_a_layout_keeps_the_watchdog_armed_and_holds_nothing() {
    let mut pins = OrderedMap::new();
    pins.insert(app("com.brnbw.Tuna"), tag("de"));
    let mut state: State<u32> = State::new(cycle(), universal(), pins, HOLD);

    let step = state.on_activation(app("com.brnbw.Tuna"), Some(&russian()), NOW);

    assert_eq!(step.watchdog, Watchdog::Arm(HOLD));
    assert_eq!(step.task, Task::Nothing);
    assert!(step.post.is_empty());
    let (verdict, _) = state.on_key(key(EventKind::Down, 0), None, None, NOW);
    assert_eq!(verdict, Verdict::Pass);
}

#[test]
fn a_reading_that_names_the_same_application_or_none_is_no_move() {
    let mut state = state();
    state.seed_frontmost(None);

    assert_eq!(
        state.on_focus_poll(Some(app("com.brnbw.Tuna"))),
        Some(app("com.brnbw.Tuna"))
    );
    assert_eq!(state.on_focus_poll(Some(app("com.brnbw.Tuna"))), None);
    assert_eq!(state.on_focus_poll(None), None);
    assert_eq!(state.on_focus_poll(Some(app("com.brnbw.Tuna"))), None);
}

#[test]
fn a_daemon_that_stops_lets_go_of_what_it_holds() {
    let mut state = state();
    assert_eq!(state.release_on_stop(), quiet());

    state.on_key(key(EventKind::Down, SWITCH_KEYCODE), None, Some(&english()), NOW);
    type_into_switch(&mut state, 0, 1);
    let step = state.release_on_stop();

    assert_eq!(step.watchdog, Watchdog::Disarm);
    assert_eq!(step.post, vec![replayed(held(0, 101))]);
    assert!(state.held().is_empty());
}

#[test]
fn a_daemon_that_never_switched_waited_for_nothing() {
    assert_eq!(state().since_switch_ms(NOW), 0);
}

#[test]
fn a_configured_layout_answers_with_its_tag() {
    let layouts = universal();

    assert_eq!(tag_named(&layouts, "English - Universal"), Some(tag("en")));
    assert_eq!(tag_named(&layouts, "Russian - Universal"), Some(tag("ru")));
}

#[test]
fn a_layout_no_tag_names_has_no_tag() {
    let layouts = universal();

    assert_eq!(tag_named(&layouts, "ABC"), None);
}

#[test]
fn the_name_must_match_exactly() {
    let layouts = universal();

    assert_eq!(tag_named(&layouts, "English"), None);
    assert_eq!(tag_named(&layouts, "english - universal"), None);
}

#[test]
fn nothing_is_configured_so_nothing_has_a_tag() {
    let layouts = OrderedMap::new();

    assert_eq!(tag_named(&layouts, "English - Universal"), None);
}

#[test]
fn every_resolved_layout_answers_with_the_tag_it_was_given() {
    let mut names = OrderedMap::new();
    names.insert(tag("us"), "English - Universal".to_string());
    names.insert(tag("ru"), "Russian - Universal".to_string());
    let Ok(resolved) = resolve(&names, &vec![russian(), english()]) else {
        panic!("the configuration does not resolve");
    };

    assert_eq!(tag_named(&resolved, "English - Universal"), Some(tag("us")));
    assert_eq!(tag_named(&resolved, "Russian - Universal"), Some(tag("ru")));
}

#[test]
fn a_daemon_that_never_ran_released_nothing() {
    let Releases { count, last } = Releases::default();

    assert_eq!(count, 0);
    assert_eq!(last, 0);
}

#[test]
fn a_start_error_says_what_could_not_be_installed() {
    assert_eq!(
        StartError::Tap(TapError::NoSource).to_string(),
        "the keyboard event tap has no run loop source"
    );
    assert_eq!(
        StartError::Timer(TimerError::NotCreated).to_string(),
        "creating the run loop timer failed"
    );
    assert_eq!(HOLD, 50 * MILLISECOND);
}
