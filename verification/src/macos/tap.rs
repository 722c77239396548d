//! What the session event tap makes of an event, and the queue of the events it holds back.
//!
//! The tap hands each event to the barrier as plain data, and executes the verdict that comes
//! back: pass it on, swallow it, or keep a copy until the layout change is confirmed. A replayed
//! event carries moji's magic in its source user data, so the tap lets its own replays straight
//! through instead of feeding them back into the barrier.
//!
//! An event is its plain data here, next to a handle to whatever the system knows it by. Copying
//! an event can fail, and only the system can do it: what is built out of copies takes them as
//! they came back.

use vstd::prelude::*;

use crate::barrier::{EventKind, KeyEvent, Stroke, Verdict};

verus! {

/// The virtual keycode of the key a retype deletes with.
pub const BACKSPACE_KEYCODE: u16 = 51;

/// The source user data moji writes into a replayed event so its own tap recognizes it.
pub const REPLAY_MAGIC: i64 = 0x6d6f_6a69;

/// A macOS privacy grant moji cannot work without.
#[derive(Debug, Clone, Copy, PartialEq, Eq, Structural)]
pub enum Access {
    /// Input Monitoring: without it the tap never sees a key.
    Listen,
    /// Accessibility: without it a held key can never be posted again.
    Post,
}

impl Access {
    /// Returns the System Settings pane that grants this access.
    pub fn pane(self) -> (pane: &'static str)
        ensures
            pane@ == match self {
                Access::Listen => "System Settings > Privacy & Security > Input Monitoring"@,
                Access::Post => "System Settings > Privacy & Security > Accessibility"@,
            },
    {
        match self {
            Access::Listen => "System Settings > Privacy & Security > Input Monitoring",
            Access::Post => "System Settings > Privacy & Security > Accessibility",
        }
    }
}

/// Returns the grants moji is missing, given which of them the system reports.
pub fn missing_access(listens: bool, posts: bool) -> (missing: Vec<Access>)
    ensures
        missing@ == (if listens {
            Seq::empty()
        } else {
            seq![Access::Listen]
        }) + (if posts {
            Seq::empty()
        } else {
            seq![Access::Post]
        }),
{
    let mut missing: Vec<Access> = Vec::new();
    if !listens {
        missing.push(Access::Listen);
    }
    if !posts {
        missing.push(Access::Post);
    }
    missing
}

/// What can go wrong when installing the keyboard tap.
#[derive(Debug, Clone, Copy, PartialEq, Eq, Structural)]
pub enum TapError {
    /// Core Graphics refused to create the tap, which is what a missing grant looks like.
    NotCreated,
    /// The tap has no run loop source, so nothing would ever call back.
    NoSource,
    /// The calling thread has no run loop to carry the tap.
    NoRunLoop,
}

impl TapError {
    /// The error in words.
    pub open spec fn words(self) -> Seq<char> {
        match self {
            TapError::NotCreated =>
                "creating the keyboard event tap failed: this process has no Input Monitoring grant"@,
            TapError::NoSource => "the keyboard event tap has no run loop source"@,
            TapError::NoRunLoop =>
                "this thread has no run loop, so the keyboard tap would never fire"@,
        }
    }

    /// Returns the error in words.
    pub fn to_string(&self) -> (printed: String)
        ensures
            printed@ == self.words(),
    {
        match self {
            TapError::NotCreated =>
                "creating the keyboard event tap failed: this process has no Input Monitoring grant".to_string(),
            TapError::NoSource => "the keyboard event tap has no run loop source".to_string(),
            TapError::NoRunLoop =>
                "this thread has no run loop, so the keyboard tap would never fire".to_string(),
        }
    }
}

/// What kind of event the system says it carries.
#[derive(Debug, Clone, Copy, PartialEq, Eq, Structural)]
pub enum EventType {
    /// A key going down.
    KeyDown,
    /// A key coming up.
    KeyUp,
    /// A modifier changing state.
    FlagsChanged,
    /// The left mouse button going down.
    LeftMouseDown,
    /// The right mouse button going down.
    RightMouseDown,
    /// Another mouse button going down.
    OtherMouseDown,
    /// No event at all: the tap took too long to answer and was disabled.
    TapDisabledByTimeout,
    /// No event at all: the tap was disabled by the user.
    TapDisabledByUserInput,
    /// Any other kind of event, under the number the system gives it.
    Other(u32),
}

/// The fields of an event moji reads and writes.
#[derive(Debug, Clone, Copy, PartialEq, Eq, Structural)]
pub struct CarriedEvent {
    /// What kind of event it is.
    pub kind: EventType,
    /// The virtual keycode field.
    pub keycode: i64,
    /// The autorepeat field, zero for a press under a finger.
    pub autorepeat: i64,
    /// The modifier flags.
    pub flags: u64,
    /// The event's own timestamp.
    pub timestamp: u64,
    /// The source user data field.
    pub user_data: i64,
}

/// Returns whether this kind says that the system disabled the tap, which has to be enabled again.
pub fn disables_tap(kind: EventType) -> (disables: bool)
    ensures
        disables <==> kind is TapDisabledByTimeout || kind is TapDisabledByUserInput,
{
    match kind {
        EventType::TapDisabledByTimeout => true,
        EventType::TapDisabledByUserInput => true,
        _ => false,
    }
}

/// Returns the event with moji's magic in its source user data, so moji's own tap passes it on.
pub fn mark_replayed(event: CarriedEvent) -> (marked: CarriedEvent)
    ensures
        marked == (CarriedEvent { user_data: REPLAY_MAGIC, ..event }),
{
    CarriedEvent { user_data: REPLAY_MAGIC, ..event }
}

/// Returns whether source user data carries moji's replay magic.
pub fn is_replayed(user_data: i64) -> (replayed: bool)
    ensures
        replayed <==> user_data == REPLAY_MAGIC,
{
    user_data == REPLAY_MAGIC
}

/// The kind of event the barrier is told of, if it is told of it at all.
pub open spec fn kind_seen(kind: EventType) -> Option<EventKind> {
    match kind {
        EventType::KeyDown => Some(EventKind::Down),
        EventType::KeyUp => Some(EventKind::Up),
        EventType::FlagsChanged => Some(EventKind::Flags),
        EventType::LeftMouseDown => Some(EventKind::MouseDown),
        EventType::RightMouseDown => Some(EventKind::MouseDown),
        EventType::OtherMouseDown => Some(EventKind::MouseDown),
        _ => None,
    }
}

/// The event as the barrier is told of it, if it is told of it at all. The keycode field is wider
/// than a keycode, and its low bits are the keycode.
pub open spec fn key_seen(event: CarriedEvent) -> Option<KeyEvent> {
    match kind_seen(event.kind) {
        Some(kind) => Some(
            KeyEvent {
                kind,
                keycode: #[verifier::truncate] (event.keycode as u16),
                flags: event.flags,
                timestamp: event.timestamp,
                stroke: if event.autorepeat == 0 {
                    Stroke::First
                } else {
                    Stroke::Repeat
                },
            },
        ),
        None => None,
    }
}

fn kind_of(kind: EventType) -> (seen: Option<EventKind>)
    ensures
        seen == kind_seen(kind),
{
    match kind {
        EventType::KeyDown => Some(EventKind::Down),
        EventType::KeyUp => Some(EventKind::Up),
        EventType::FlagsChanged => Some(EventKind::Flags),
        EventType::LeftMouseDown => Some(EventKind::MouseDown),
        EventType::RightMouseDown => Some(EventKind::MouseDown),
        EventType::OtherMouseDown => Some(EventKind::MouseDown),
        _ => None,
    }
}

/// Returns the plain-data view of a keyboard event, or nothing when the event carries no key.
pub fn key_event(event: CarriedEvent) -> (key: Option<KeyEvent>)
    ensures
        key == key_seen(event),
{
    let Some(kind) = kind_of(event.kind) else {
        return None;
    };
    let stroke = if event.autorepeat == 0 {
        Stroke::First
    } else {
        Stroke::Repeat
    };
    Some(
        KeyEvent {
            kind,
            keycode: #[verifier::truncate] (event.keycode as u16),
            flags: event.flags,
            timestamp: event.timestamp,
            stroke,
        },
    )
}

/// The key the barrier decides about: none for one of moji's own replays, and none for an event
/// that carries no key.
pub open spec fn key_delivered(event: CarriedEvent) -> Option<KeyEvent> {
    if event.user_data == REPLAY_MAGIC {
        None
    } else {
        key_seen(event)
    }
}

/// Returns the key the barrier decides about, or nothing when the event goes straight through:
/// one of moji's own replays, or an event that carries no key.
pub fn delivered(event: CarriedEvent) -> (key: Option<KeyEvent>)
    ensures
        key == key_delivered(event),
{
    if is_replayed(event.user_data) {
        return None;
    }
    key_event(event)
}

/// Whether an event reached the queue that holds it back.
#[derive(Debug, Clone, Copy, PartialEq, Eq, Structural)]
pub enum Kept {
    /// The queue carries it now.
    Yes,
    /// Copying the event or reaching the queue failed, so the queue is unchanged.
    No,
}

/// What the tap answers the system with.
#[derive(Debug, Clone, Copy, PartialEq, Eq, Structural)]
pub enum Answer {
    /// The event goes on to whatever is downstream.
    PassOn,
    /// Nothing downstream sees the event.
    Drop,
}

/// The answer to the system: a held event no copy could be made of goes on.
pub open spec fn answered(verdict: Verdict, kept: bool) -> Answer {
    match verdict {
        Verdict::Pass => Answer::PassOn,
        Verdict::Swallow => Answer::Drop,
        Verdict::Hold => if kept {
            Answer::Drop
        } else {
            Answer::PassOn
        },
    }
}

/// Returns what the tap answers, given the verdict and whether a held event could be kept.
pub fn answer(verdict: Verdict, kept: bool) -> (answer: Answer)
    ensures
        answer == answered(verdict, kept),
{
    match verdict {
        Verdict::Pass => Answer::PassOn,
        Verdict::Swallow => Answer::Drop,
        Verdict::Hold => if kept {
            Answer::Drop
        } else {
            Answer::PassOn
        },
    }
}

/// An event moji kept back: its plain data, and the handle that posts it.
///
/// Posting writes the kind and the source user data into the event behind the handle. Everything
/// else goes out as that event carries it.
#[derive(Debug, PartialEq, Eq)]
pub struct HeldEvent<H> {
    /// The fields as moji knows them.
    pub carried: CarriedEvent,
    /// The copy of the event itself.
    pub handle: H,
}

impl<H> HeldEvent<H> {
    /// Returns the event a tap carried next to the copy that was made of it, or nothing when the
    /// copy failed.
    pub fn capture(carried: CarriedEvent, copy: Option<H>) -> (captured: Option<HeldEvent<H>>)
        ensures
            captured == match copy {
                Some(handle) => Some(HeldEvent { carried, handle }),
                None => None,
            },
    {
        let Some(handle) = copy else {
            return None;
        };
        Some(HeldEvent { carried, handle })
    }

    /// Returns this event next to another copy that was made of it, or nothing when the copy
    /// failed.
    pub fn duplicate(&self, copy: Option<H>) -> (duplicate: Option<HeldEvent<H>>)
        ensures
            duplicate == match copy {
                Some(handle) => Some(HeldEvent { carried: self.carried, handle }),
                None => None,
            },
    {
        HeldEvent::capture(self.carried, copy)
    }
}

/// The key-up that matches a captured key-down.
pub open spec fn raised(carried: CarriedEvent) -> CarriedEvent {
    CarriedEvent { kind: EventType::KeyUp, ..carried }
}

/// The event as it is posted again.
pub open spec fn marked<H>(event: HeldEvent<H>) -> HeldEvent<H> {
    HeldEvent {
        carried: CarriedEvent { user_data: REPLAY_MAGIC, ..event.carried },
        handle: event.handle,
    }
}

/// A sequence of events as they are posted again, in the same order.
pub open spec fn replayed<H>(events: Seq<HeldEvent<H>>) -> Seq<HeldEvent<H>> {
    events.map_values(|event: HeldEvent<H>| marked(event))
}

/// The two copies that were made of one event, each of them if it did not fail.
pub struct Copies<H> {
    /// The copy that goes down.
    pub down: Option<H>,
    /// The copy that comes up.
    pub up: Option<H>,
}

impl<H> Copies<H> {
    /// Whether neither copy failed.
    pub open spec fn both(self) -> bool {
        self.down is Some && self.up is Some
    }
}

/// Whether no copy failed.
pub open spec fn all_made<H>(copies: Seq<Copies<H>>) -> bool {
    forall|i: int| 0 <= i < copies.len() ==> (#[trigger] copies[i]).both()
}

/// A key-down and the matching key-up of every event, in that order, each with its own copy.
pub open spec fn strokes<H>(events: Seq<CarriedEvent>, copies: Seq<Copies<H>>) -> Seq<HeldEvent<H>>
    decreases events.len(),
{
    if events.len() == 0 {
        Seq::empty()
    } else {
        strokes(events.drop_last(), copies.drop_last()).push(
            HeldEvent { carried: events.last(), handle: copies.last().down->0 },
        ).push(HeldEvent { carried: raised(events.last()), handle: copies.last().up->0 })
    }
}

/// The plain data of a sequence of captured events.
pub open spec fn carried_by<H>(events: Seq<&HeldEvent<H>>) -> Seq<CarriedEvent> {
    events.map_values(|event: &HeldEvent<H>| event.carried)
}

/// The queue of events a tap is holding, in arrival order.
pub struct Held<H> {
    queue: Vec<HeldEvent<H>>,
}

impl<H> View for Held<H> {
    type V = Seq<HeldEvent<H>>;

    closed spec fn view(&self) -> Seq<HeldEvent<H>> {
        self.queue@
    }
}

impl<H> Held<H> {
    /// Returns a queue holding nothing, which is what a tap is installed with.
    pub fn empty() -> (held: Held<H>)
        ensures
            held@ == Seq::<HeldEvent<H>>::empty(),
    {
        Held { queue: Vec::new() }
    }

    /// Empties the queue and returns every held event in arrival order, marked as a replay.
    pub fn replay(&mut self) -> (posted: Vec<HeldEvent<H>>)
        ensures
            posted@ == replayed(old(self)@),
            final(self)@ == Seq::<HeldEvent<H>>::empty(),
    {
        let events = self.drain();
        let ghost waiting = events@;
        let mut posted: Vec<HeldEvent<H>> = Vec::new();
        for event in it: events
            invariant
                it.seq() == waiting,
                posted@ == replayed(waiting.take(it.index())),
        {
            proof {
                assert(waiting.take(it.index() + 1) =~= waiting.take(it.index()).push(event));
            }
            posted.push(HeldEvent { carried: mark_replayed(event.carried), handle: event.handle });
            assert(posted@ =~= replayed(waiting.take(it.index() + 1)));
        }
        assert(waiting.take(waiting.len() as int) =~= waiting);
        posted
    }

    /// Empties the queue and returns every held event in arrival order.
    pub fn drain(&mut self) -> (events: Vec<HeldEvent<H>>)
        ensures
            events@ == old(self)@,
            final(self)@ == Seq::<HeldEvent<H>>::empty(),
    {
        let mut events: Vec<HeldEvent<H>> = Vec::new();
        std::mem::swap(&mut events, &mut self.queue);
        events
    }

    /// Returns how many events are waiting to be replayed.
    pub fn len(&self) -> (len: usize)
        ensures
            len == self@.len(),
    {
        self.queue.len()
    }

    /// Returns whether nothing is waiting to be replayed.
    pub fn is_empty(&self) -> (empty: bool)
        ensures
            empty <==> self@.len() == 0,
    {
        self.len() == 0
    }

    /// Pushes the keyDown of every captured stroke and its matching keyUp, in that order.
    ///
    /// Every copy is looked at before the queue is touched, so a copy that failed leaves the queue
    /// exactly as it was rather than holding half of what was asked for.
    pub fn push_strokes(&mut self, events: &Vec<&HeldEvent<H>>, copies: Vec<Copies<H>>) -> (kept:
        Kept)
        requires
            events@.len() == copies@.len(),
        ensures
            kept is Yes <==> all_made(copies@),
            final(self)@ == old(self)@ + if all_made(copies@) {
                strokes(carried_by(events@), copies@)
            } else {
                Seq::empty()
            },
    {
        let ghost carried = carried_by(events@);
        let ghost made = copies@;
        let mut pushed: Vec<HeldEvent<H>> = Vec::new();
        let len: usize = events.len();
        let mut index: usize = 0;
        for copy in it: copies
            invariant
                it.seq() == made,
                len == events@.len(),
                made.len() == events@.len() == carried.len(),
                carried == carried_by(events@),
                index == it.index(),
                forall|i: int| 0 <= i < index ==> (#[trigger] made[i]).both(),
                pushed@ == strokes(carried.take(index as int), made.take(index as int)),
        {
            let ghost read = index as int;
            let event: &HeldEvent<H> = events[index];
            let Copies { down, up } = copy;
            assert(made[read] == copy);
            let Some(down) = event.duplicate(down) else {
                return Kept::No;
            };
            let Some(up) = event.duplicate(up) else {
                return Kept::No;
            };
            assert(carried[read] == event.carried);
            assert(carried.take(read + 1).drop_last() =~= carried.take(read));
            assert(made.take(read + 1).drop_last() =~= made.take(read));
            pushed.push(down);
            pushed.push(
                HeldEvent {
                    carried: CarriedEvent { kind: EventType::KeyUp, ..up.carried },
                    handle: up.handle,
                },
            );
            index += 1;
        }
        assert(carried.take(index as int) =~= carried);
        assert(made.take(index as int) =~= made);
        self.queue.append(&mut pushed);
        Kept::Yes
    }

    /// Keeps the copy that was made of an event, unless the copy failed.
    pub fn keep(&mut self, event: Option<HeldEvent<H>>) -> (kept: Kept)
        ensures
            kept is Yes <==> event is Some,
            final(self)@ == match event {
                Some(event) => old(self)@.push(event),
                None => old(self)@,
            },
    {
        let Some(event) = event else {
            return Kept::No;
        };
        self.queue.push(event);
        Kept::Yes
    }

    /// Carries a verdict out on the event it was passed for, given the copy that was made of it,
    /// and returns what the tap answers: a held event that could not be kept goes on.
    pub fn carry_out(&mut self, verdict: Verdict, event: Option<HeldEvent<H>>) -> (answer: Answer)
        ensures
            final(self)@ == match event {
                Some(event) if verdict == Verdict::Hold => old(self)@.push(event),
                _ => old(self)@,
            },
            answer == answered(verdict, event is Some),
    {
        let kept = match verdict {
            Verdict::Hold => match self.keep(event) {
                Kept::Yes => true,
                Kept::No => false,
            },
            _ => false,
        };
        answer(verdict, kept)
    }
}

/// The backspace key going down or coming up, marked as a replay.
///
/// The event is one the system makes for the keycode, and its flags and its timestamp are the
/// system's too: moji neither reads nor writes them, and they stand as zero here.
pub open spec fn backspace(kind: EventType) -> CarriedEvent {
    CarriedEvent {
        kind,
        keycode: BACKSPACE_KEYCODE as i64,
        autorepeat: 0,
        flags: 0,
        timestamp: 0,
        user_data: REPLAY_MAGIC,
    }
}

/// Returns the two events of one backspace next to the handles that were made for them, or nothing
/// when making one failed.
pub fn backspace_pair<H>(made: Copies<H>) -> (pair: Option<(HeldEvent<H>, HeldEvent<H>)>)
    ensures
        pair == if made.both() {
            Some(
                (
                    HeldEvent { carried: backspace(EventType::KeyDown), handle: made.down->0 },
                    HeldEvent { carried: backspace(EventType::KeyUp), handle: made.up->0 },
                ),
            )
        } else {
            None
        },
{
    let Copies { down, up } = made;
    let Some(down) = down else {
        return None;
    };
    let Some(up) = up else {
        return None;
    };
    let pressed = CarriedEvent {
        kind: EventType::KeyDown,
        keycode: BACKSPACE_KEYCODE as i64,
        autorepeat: 0,
        flags: 0,
        timestamp: 0,
        user_data: REPLAY_MAGIC,
    };
    let released = CarriedEvent { kind: EventType::KeyUp, ..pressed };
    Some((HeldEvent { carried: pressed, handle: down }, HeldEvent { carried: released, handle: up }))
}

/// As many backspaces as there are handles, each going down and coming up.
pub open spec fn backspaces<H>(made: Seq<Copies<H>>) -> Seq<HeldEvent<H>>
    decreases made.len(),
{
    if made.len() == 0 {
        Seq::empty()
    } else {
        backspaces(made.drop_last()).push(
            HeldEvent { carried: backspace(EventType::KeyDown), handle: made.last().down->0 },
        ).push(HeldEvent { carried: backspace(EventType::KeyUp), handle: made.last().up->0 })
    }
}

/// The backspace strokes a retype deletes with, all built before any of them goes out.
pub struct Deletions<H> {
    strokes: Vec<HeldEvent<H>>,
}

impl<H> View for Deletions<H> {
    type V = Seq<HeldEvent<H>>;

    closed spec fn view(&self) -> Seq<HeldEvent<H>> {
        self.strokes@
    }
}

impl<H> Deletions<H> {
    /// Returns the strokes that delete `count` characters, given the handles that were made for
    /// them, or nothing when making one failed.
    ///
    /// Every stroke is built up front, so a failure posts nothing at all instead of leaving the
    /// text with some of the characters deleted and no replacement coming.
    pub fn built(count: usize, made: Vec<Copies<H>>) -> (deletions: Option<Deletions<H>>)
        requires
            made@.len() == count,
        ensures
            deletions is Some <==> all_made(made@),
            deletions matches Some(deletions) ==> deletions@ == backspaces(made@),
    {
        let ghost all = made@;
        let mut strokes: Vec<HeldEvent<H>> = Vec::new();
        for copies in it: made
            invariant
                it.seq() == all,
                forall|i: int| 0 <= i < it.index() ==> (#[trigger] all[i]).both(),
                strokes@ == backspaces(all.take(it.index())),
        {
            assert(all[it.index()] == copies);
            let Some((down, up)) = backspace_pair(copies) else {
                return None;
            };
            assert(all.take(it.index() + 1).drop_last() =~= all.take(it.index()));
            strokes.push(down);
            strokes.push(up);
        }
        assert(all.take(all.len() as int) =~= all);
        Some(Deletions { strokes })
    }

    /// Returns every stroke, in the order in which they are posted.
    pub fn post(self) -> (posted: Vec<HeldEvent<H>>)
        ensures
            posted@ == self@,
    {
        self.strokes
    }
}

/// What moji posts itself goes straight through its own tap: neither a replayed event nor a
/// backspace of its own is ever decided about again.
pub proof fn what_moji_posts_is_never_decided_about<H>(event: HeldEvent<H>, kind: EventType)
    ensures
        key_delivered(marked(event).carried) is None,
        key_delivered(backspace(kind)) is None,
{
}

/// A replay changes nothing of an event but the mark: the same event, in the same place.
pub proof fn a_replay_keeps_the_order<H>(waiting: Seq<HeldEvent<H>>, i: int)
    requires
        0 <= i < waiting.len(),
    ensures
        ({
            let posted = replayed(waiting);
            &&& posted.len() == waiting.len()
            &&& posted[i].handle == waiting[i].handle
            &&& posted[i].carried == (CarriedEvent {
                user_data: REPLAY_MAGIC,
                ..waiting[i].carried
            })
        }),
{
}

/// Every captured event is pushed as a key-down and a key-up, right after one another and in the
/// order of the events.
pub proof fn every_stroke_goes_down_and_comes_up<H>(
    events: Seq<CarriedEvent>,
    copies: Seq<Copies<H>>,
)
    requires
        events.len() == copies.len(),
    ensures
        strokes(events, copies).len() == 2 * events.len(),
        forall|i: int|
            0 <= i < events.len() ==> strokes(events, copies)[2 * i].carried == #[trigger] events[i],
        forall|i: int|
            0 <= i < events.len() ==> strokes(events, copies)[2 * i + 1].carried == raised(
                #[trigger] events[i],
            ),
    decreases events.len(),
{
    if events.len() > 0 {
        let before = events.drop_last();
        every_stroke_goes_down_and_comes_up(before, copies.drop_last());
        let all = strokes(events, copies);
        let shorter = strokes(before, copies.drop_last());
        assert forall|i: int| 0 <= i < events.len() implies all[2 * i].carried
            == #[trigger] events[i] && all[2 * i + 1].carried == raised(events[i]) by {
            if i < before.len() {
                assert(before[i] == events[i]);
                assert(all[2 * i] == shorter[2 * i]);
                assert(all[2 * i + 1] == shorter[2 * i + 1]);
            }
        }
    }
}

/// Deleting `count` characters takes `count` backspaces, each going down and coming up, all of
/// them marked.
pub proof fn every_deletion_is_one_backspace<H>(made: Seq<Copies<H>>)
    ensures
        backspaces(made).len() == 2 * made.len(),
        forall|i: int|
            0 <= i < backspaces(made).len() ==> (#[trigger] backspaces(made)[i]).carried
                == backspace(
                if i % 2 == 0 {
                    EventType::KeyDown
                } else {
                    EventType::KeyUp
                },
            ),
    decreases made.len(),
{
    if made.len() > 0 {
        every_deletion_is_one_backspace(made.drop_last());
        let shorter = backspaces(made.drop_last());
        assert forall|i: int| 0 <= i < backspaces(made).len() implies (
        #[trigger] backspaces(made)[i]).carried == backspace(
            if i % 2 == 0 {
                EventType::KeyDown
            } else {
                EventType::KeyUp
            },
        ) by {
            if i < shorter.len() {
                assert(backspaces(made)[i] == shorter[i]);
            }
        }
    }
}

/// The barrier is told of keys, modifiers and the three kinds of clicks, each under its own kind,
/// with the keycode, the flags and the timestamp the event carries; a key-down that the system
/// repeats says so. It is told of nothing that carries moji's own mark, and of no other event.
pub proof fn an_event_is_told_as_it_is(event: CarriedEvent)
    ensures
        event.user_data == 0x6d6f_6a69 ==> key_delivered(event) is None,
        event.user_data != 0x6d6f_6a69 ==> key_delivered(event) == key_seen(event),
        key_seen(event) is Some <==> event.kind is KeyDown || event.kind is KeyUp
            || event.kind is FlagsChanged || event.kind is LeftMouseDown
            || event.kind is RightMouseDown || event.kind is OtherMouseDown,
        key_seen(event) matches Some(key) ==> {
            &&& event.kind is KeyDown <==> key.kind == EventKind::Down
            &&& event.kind is KeyUp <==> key.kind == EventKind::Up
            &&& event.kind is FlagsChanged <==> key.kind == EventKind::Flags
            &&& 0 <= event.keycode <= 0xffff ==> key.keycode == event.keycode
            &&& key.keycode == (event.keycode & 0xffff)
            &&& key.flags == event.flags
            &&& key.timestamp == event.timestamp
            &&& key.stroke == Stroke::First <==> event.autorepeat == 0
        },
{
    let keycode = event.keycode;
    assert(#[verifier::truncate] (keycode as u16) == keycode & 0xffff) by (bit_vector);
    assert(0 <= keycode <= 0xffff ==> keycode & 0xffff == keycode) by (bit_vector);
}

/// The tap passes an event on where it is let through or could not be kept, and drops it where it
/// is swallowed or kept for later.
pub proof fn an_event_is_dropped_only_where_it_is_swallowed_or_kept(verdict: Verdict, kept: bool)
    ensures
        answered(verdict, kept) == Answer::Drop <==> verdict == Verdict::Swallow || (verdict
            == Verdict::Hold && kept),
        answered(verdict, kept) == Answer::PassOn <==> verdict == Verdict::Pass || (verdict
            == Verdict::Hold && !kept),
{
}

/// The strokes of some events are, event by event, a key-down with the first copy that was made of
/// it and the very same event as a key-up with the second.
pub proof fn every_stroke_is_posted_with_its_own_copies<H>(
    events: Seq<CarriedEvent>,
    copies: Seq<Copies<H>>,
)
    requires
        events.len() == copies.len(),
        all_made(copies),
    ensures
        strokes(events, copies).len() == 2 * events.len(),
        forall|i: int|
            0 <= i < events.len() ==> {
                let down = strokes(events, copies)[2 * i];
                let up = strokes(events, copies)[2 * i + 1];
                let event = #[trigger] events[i];
                &&& down.carried == event
                &&& copies[i].down == Some(down.handle)
                &&& copies[i].up == Some(up.handle)
                &&& up.carried == (CarriedEvent {
                    kind: EventType::KeyUp,
                    keycode: event.keycode,
                    autorepeat: event.autorepeat,
                    flags: event.flags,
                    timestamp: event.timestamp,
                    user_data: event.user_data,
                })
            },
    decreases events.len(),
{
    every_stroke_goes_down_and_comes_up(events, copies);
    if events.len() > 0 {
        let before = events.drop_last();
        let shorter = copies.drop_last();
        assert forall|i: int| 0 <= i < shorter.len() implies (#[trigger] shorter[i]).both() by {
            assert(copies[i].both());
        }
        assert(copies[copies.len() - 1].both());
        every_stroke_is_posted_with_its_own_copies(before, shorter);
        let all = strokes(events, copies);
        let earlier = strokes(before, shorter);
        assert forall|i: int| 0 <= i < events.len() implies {
            let event = #[trigger] events[i];
            &&& copies[i].down == Some(all[2 * i].handle)
            &&& copies[i].up == Some(all[2 * i + 1].handle)
        } by {
            if i < before.len() {
                assert(before[i] == events[i]);
                assert(shorter[i] == copies[i]);
                assert(all[2 * i] == earlier[2 * i]);
                assert(all[2 * i + 1] == earlier[2 * i + 1]);
            }
        }
    }
}

/// Deleting takes one backspace for each pair of handles, first down and then up, with the handles
/// that were made for it and moji's mark in both.
pub proof fn every_deletion_is_posted_with_its_own_handles<H>(made: Seq<Copies<H>>)
    requires
        all_made(made),
    ensures
        backspaces(made).len() == 2 * made.len(),
        forall|i: int|
            0 <= i < made.len() ==> {
                let down = backspaces(made)[2 * i];
                let up = backspaces(made)[2 * i + 1];
                let handles = #[trigger] made[i];
                &&& handles.down == Some(down.handle)
                &&& handles.up == Some(up.handle)
                &&& down.carried.kind is KeyDown
                &&& up.carried.kind is KeyUp
                &&& down.carried.keycode == 51
                &&& up.carried.keycode == 51
                &&& down.carried.user_data == 0x6d6f_6a69
                &&& up.carried.user_data == 0x6d6f_6a69
            },
    decreases made.len(),
{
    every_deletion_is_one_backspace(made);
    if made.len() > 0 {
        let shorter = made.drop_last();
        assert forall|i: int| 0 <= i < shorter.len() implies (#[trigger] shorter[i]).both() by {
            assert(made[i].both());
        }
        assert(made[made.len() - 1].both());
        every_deletion_is_posted_with_its_own_handles(shorter);
        let all = backspaces(made);
        let earlier = backspaces(shorter);
        assert forall|i: int| 0 <= i < made.len() implies {
            let handles = #[trigger] made[i];
            &&& handles.down == Some(all[2 * i].handle)
            &&& handles.up == Some(all[2 * i + 1].handle)
            &&& all[2 * i].carried == backspace(EventType::KeyDown)
            &&& all[2 * i + 1].carried == backspace(EventType::KeyUp)
        } by {
            if i < shorter.len() {
                assert(shorter[i] == made[i]);
                assert(all[2 * i] == earlier[2 * i]);
                assert(all[2 * i + 1] == earlier[2 * i + 1]);
            }
        }
    }
}

/// Copies were all made exactly where neither of the two failed for any event.
pub proof fn copies_are_all_made_where_none_failed<H>(copies: Seq<Copies<H>>)
    ensures
        all_made(copies) <==> forall|i: int|
            0 <= i < copies.len() ==> (#[trigger] copies[i]).down is Some && copies[i].up is Some,
{
    if forall|i: int|
        0 <= i < copies.len() ==> (#[trigger] copies[i]).down is Some && copies[i].up is Some {
        assert forall|i: int| 0 <= i < copies.len() implies (#[trigger] copies[i]).both() by {}
    }
    if all_made(copies) {
        assert forall|i: int| 0 <= i < copies.len() implies (#[trigger] copies[i]).down is Some
            && copies[i].up is Some by {
            assert(copies[i].both());
        }
    }
}

/// What is posted again is what waited, as many events in the same order, each the same but for
/// the mark.
pub proof fn what_waited_is_posted_again_as_it_was<H>(waiting: Seq<HeldEvent<H>>)
    ensures
        replayed(waiting).len() == waiting.len(),
        forall|i: int|
            0 <= i < waiting.len() ==> {
                let posted = #[trigger] replayed(waiting)[i];
                &&& posted.handle == waiting[i].handle
                &&& posted.carried.kind == waiting[i].carried.kind
                &&& posted.carried.keycode == waiting[i].carried.keycode
                &&& posted.carried.autorepeat == waiting[i].carried.autorepeat
                &&& posted.carried.flags == waiting[i].carried.flags
                &&& posted.carried.timestamp == waiting[i].carried.timestamp
                &&& posted.carried.user_data == 0x6d6f_6a69
            },
{
}

/// What some captured events carry is theirs, one for one.
pub proof fn every_captured_event_gives_what_it_carries<H>(events: Seq<&HeldEvent<H>>, i: int)
    requires
        0 <= i < events.len(),
    ensures
        carried_by(events).len() == events.len(),
        carried_by(events)[i] == events[i].carried,
{
}

} // verus!
