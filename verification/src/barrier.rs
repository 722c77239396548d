//! The ordering barrier, as a state machine over plain data.
//!
//! The barrier takes keyboard events as plain data plus the clock, and returns what the tap and
//! the daemon must do. The queue owns the held events themselves; the barrier only counts them.

use vstd::prelude::*;

use crate::clock::{Duration, Instant, MILLISECOND};
use crate::cycle::{next_tag, tag_text};
use crate::macos::tis::{tags, LayoutTag};

pub use crate::cycle::next;

verus! {

/// The virtual keycode of F19, the key Karabiner emits on a tap and moji swallows.
pub const SWITCH_KEYCODE: u16 = 80;

/// The virtual keycode of F18, the key that asks for what was typed to be retyped.
pub const RETYPE_KEYCODE: u16 = 79;

/// How long the held events wait after the confirmation before they are replayed.
///
/// The confirmation is observed in moji's own process, and the distributed notification that
/// carries it reaches another process 1-10 ms later. A replayed event is the captured one, so the
/// receiving application translates its keycode against whatever source it believes is current:
/// replaying the instant moji learns of the switch types the old layout in an application that has
/// not learned of it yet.
pub const SETTLE: Duration = 10 * MILLISECOND;

/// Which kind of event the tap saw.
#[derive(Debug, Clone, Copy, PartialEq, Eq, Structural)]
pub enum EventKind {
    /// A key going down.
    Down,
    /// A key coming up.
    Up,
    /// A modifier changing state.
    Flags,
    /// A mouse button going down.
    MouseDown,
}

/// Whether a key-down is the press itself or the system repeating a held key.
#[derive(Debug, Clone, Copy, PartialEq, Eq, Structural)]
pub enum Stroke {
    /// The key went down under a finger.
    First,
    /// The system repeated a key that is still held.
    Repeat,
}

/// The plain-data view of a keyboard event that the barrier reasons about.
#[derive(Debug, Clone, Copy, PartialEq, Eq, Structural)]
pub struct KeyEvent {
    /// Whether the key went down, came up, or is a modifier change.
    pub kind: EventKind,
    /// The virtual keycode the event carries.
    pub keycode: u16,
    /// The modifier flags the event carries.
    pub flags: u64,
    /// The event's own timestamp, as the tap reported it.
    pub timestamp: u64,
    /// Whether a key-down is the press or an autorepeat of it.
    pub stroke: Stroke,
}

/// What the tap must do with the event it just handed over.
#[derive(Debug, Clone, Copy, PartialEq, Eq, Structural)]
pub enum Verdict {
    /// Let the event through untouched.
    Pass,
    /// Drop the event; nothing downstream ever sees it.
    Swallow,
    /// Keep a copy in arrival order and drop the original until the replay.
    Hold,
}

/// What an event asks the daemon for.
#[derive(Debug, PartialEq, Eq)]
pub enum Request {
    /// Nothing at all.
    Nothing,
    /// To select this layout, because the event started a switch.
    Select(LayoutTag),
    /// To retype what was just typed in the other layout.
    Retype,
}

/// Everything the barrier decided about one event.
#[derive(Debug, PartialEq, Eq)]
pub struct Decision {
    /// What to do with the event itself.
    pub verdict: Verdict,
    /// What the event asks the daemon for.
    pub request: Request,
}

/// A request as plain text.
pub enum RequestView {
    /// Nothing at all.
    Nothing,
    /// To select the layout under this tag.
    Select(Seq<char>),
    /// To retype.
    Retype,
}

/// A decision as plain text.
pub struct DecisionView {
    /// What to do with the event itself.
    pub verdict: Verdict,
    /// What the event asks the daemon for.
    pub request: RequestView,
}

impl Clone for Request {
    fn clone(&self) -> (copy: Request)
        ensures
            copy == *self,
    {
        match self {
            Request::Nothing => Request::Nothing,
            Request::Select(tag) => Request::Select(tag.clone()),
            Request::Retype => Request::Retype,
        }
    }
}

impl View for Request {
    type V = RequestView;

    open spec fn view(&self) -> RequestView {
        match self {
            Request::Nothing => RequestView::Nothing,
            Request::Select(tag) => RequestView::Select(tag@),
            Request::Retype => RequestView::Retype,
        }
    }
}

impl Clone for Decision {
    fn clone(&self) -> (copy: Decision)
        ensures
            copy == *self,
    {
        Decision { verdict: self.verdict, request: self.request.clone() }
    }
}

impl View for Decision {
    type V = DecisionView;

    open spec fn view(&self) -> DecisionView {
        DecisionView { verdict: self.verdict, request: self.request@ }
    }
}

impl Decision {
    fn pass() -> (decision: Decision)
        ensures
            decision@ == plain(Verdict::Pass),
    {
        Decision { verdict: Verdict::Pass, request: Request::Nothing }
    }

    fn swallow() -> (decision: Decision)
        ensures
            decision@ == plain(Verdict::Swallow),
    {
        Decision { verdict: Verdict::Swallow, request: Request::Nothing }
    }

    fn hold() -> (decision: Decision)
        ensures
            decision@ == plain(Verdict::Hold),
    {
        Decision { verdict: Verdict::Hold, request: Request::Nothing }
    }
}

/// What the daemon must do with the layout change it just reported.
#[derive(Debug, Clone, Copy, PartialEq, Eq, Structural)]
pub enum Confirmed {
    /// Nothing: no switch was waiting for this layout.
    Nothing,
    /// The switch arrived; the held events wait [`SETTLE`] longer before they replay.
    Settling,
}

/// What the deadline that just passed asks the daemon for.
#[derive(Debug, Clone, Copy, PartialEq, Eq, Structural)]
pub enum Elapsed {
    /// Nothing is waiting, so nothing is due.
    Nothing,
    /// A deadline is still ahead: arm the watchdog again for this long.
    Waiting(Duration),
    /// The settle passed: replay the held events into the layout every process now agrees on.
    Settled,
    /// No confirmation came in time: release the held events anyway.
    Unconfirmed,
}

/// What the barrier is waiting for.
pub enum Phase {
    /// Nothing.
    Idle,
    /// The confirmation of a switch whose keys are being held.
    Switching {
        /// The layout the confirmation must name.
        expected: Seq<char>,
        /// When the held events go through regardless.
        deadline: int,
        /// How many events wait.
        held: nat,
    },
    /// The confirmation of a select no key asked for, which holds nothing.
    Selecting {
        /// The layout the confirmation must name.
        expected: Seq<char>,
        /// When the wait is given up.
        deadline: int,
    },
    /// The settle after a confirmation.
    Settling {
        /// When the held events go through.
        deadline: int,
        /// How many events wait.
        held: nat,
    },
}

/// The barrier as plain data.
pub struct BarrierView {
    /// The tags a switch walks, in order.
    pub cycle: Seq<Seq<char>>,
    /// How long a switch may wait for its confirmation.
    pub hold: int,
    /// What the barrier is waiting for.
    pub phase: Phase,
}

/// A decision that asks for nothing.
pub open spec fn plain(verdict: Verdict) -> DecisionView {
    DecisionView { verdict, request: RequestView::Nothing }
}

/// Whether the event is one of the two signal keys going down, repeating or coming up.
pub open spec fn is_signal(event: KeyEvent) -> bool {
    &&& event.kind == EventKind::Down || event.kind == EventKind::Up
    &&& event.keycode == SWITCH_KEYCODE || event.keycode == RETYPE_KEYCODE
}

/// Whether the event is the key with this keycode going down under a finger.
pub open spec fn is_press(event: KeyEvent, keycode: u16) -> bool {
    &&& event.kind == EventKind::Down
    &&& event.stroke == Stroke::First
    &&& event.keycode == keycode
}

/// Whether the event waits while a switch is running: anything that is neither a signal key nor a
/// click.
pub open spec fn is_ordinary(event: KeyEvent) -> bool {
    !is_signal(event) && event.kind != EventKind::MouseDown
}

impl BarrierView {
    /// Whether a key-driven switch owns the keyboard: its events wait until the replay.
    pub open spec fn holding(self) -> bool {
        self.phase is Switching || self.phase is Settling
    }

    /// How many events wait for a replay.
    pub open spec fn held(self) -> nat {
        match self.phase {
            Phase::Switching { expected: _, deadline: _, held } => held,
            Phase::Settling { deadline: _, held } => held,
            _ => 0,
        }
    }

    /// The layout whose confirmation is waited for.
    pub open spec fn awaited(self) -> Option<Seq<char>> {
        match self.phase {
            Phase::Switching { expected, deadline: _, held: _ } => Some(expected),
            Phase::Selecting { expected, deadline: _ } => Some(expected),
            _ => None,
        }
    }

    /// The same barrier, waiting for something else.
    pub open spec fn with(self, phase: Phase) -> BarrierView {
        BarrierView { phase, ..self }
    }

    /// The layout a press of the switch key walks from: the one that is being selected already,
    /// or else the one that is selected now.
    pub open spec fn walks_from(self, current: Option<Seq<char>>) -> Option<Seq<char>> {
        match self.phase {
            Phase::Selecting { expected, deadline: _ } => Some(expected),
            _ => current,
        }
    }

    /// The layout the event switches to, if it starts a switch.
    pub open spec fn switches_to(self, event: KeyEvent, current: Option<Seq<char>>) -> Option<
        Seq<char>,
    > {
        if is_press(event, SWITCH_KEYCODE) && !self.holding() {
            next_tag(self.cycle, self.walks_from(current))
        } else {
            None
        }
    }

    /// A switch to `expected` that starts now with `held` events waiting already.
    pub open spec fn switching(self, expected: Seq<char>, held: nat, now: int) -> BarrierView {
        self.with(Phase::Switching { expected, deadline: now + self.hold, held })
    }

    /// The barrier with one more event waiting.
    pub open spec fn one_more(self) -> BarrierView {
        match self.phase {
            Phase::Switching { expected, deadline, held } => self.with(
                Phase::Switching { expected, deadline, held: held + 1 },
            ),
            Phase::Settling { deadline, held } => self.with(
                Phase::Settling { deadline, held: held + 1 },
            ),
            _ => self,
        }
    }

    /// What becomes of the barrier when the tap hands it an event.
    pub open spec fn after_key(
        self,
        event: KeyEvent,
        current: Option<Seq<char>>,
        now: int,
    ) -> BarrierView {
        if let Some(expected) = self.switches_to(event, current) {
            self.switching(expected, 0, now)
        } else if is_ordinary(event) && self.holding() {
            self.one_more()
        } else {
            self
        }
    }

    /// What the barrier decides about an event: a click passes, a signal key is swallowed, and
    /// anything else waits while a switch owns the keyboard.
    pub open spec fn decides(self, event: KeyEvent, current: Option<Seq<char>>) -> DecisionView {
        if event.kind == EventKind::MouseDown {
            plain(Verdict::Pass)
        } else if let Some(expected) = self.switches_to(event, current) {
            DecisionView { verdict: Verdict::Swallow, request: RequestView::Select(expected) }
        } else if is_press(event, RETYPE_KEYCODE) && !self.holding() {
            DecisionView { verdict: Verdict::Swallow, request: RequestView::Retype }
        } else if is_signal(event) {
            plain(Verdict::Swallow)
        } else if self.holding() {
            plain(Verdict::Hold)
        } else {
            plain(Verdict::Pass)
        }
    }

    /// What becomes of the barrier when the daemon announces a select of its own: a key-driven
    /// switch keeps its window, and anything else waits for the announced layout.
    pub open spec fn after_select(self, expected: Seq<char>, now: int) -> BarrierView {
        if self.holding() {
            self
        } else {
            self.with(Phase::Selecting { expected, deadline: now + self.hold })
        }
    }

    /// What becomes of the barrier when a retype starts with its strokes waiting already.
    pub open spec fn after_retype(self, target: Seq<char>, held: nat, now: int) -> BarrierView {
        if self.holding() {
            self
        } else {
            self.switching(target, held, now)
        }
    }

    /// Whether the barrier waits for a confirmation naming exactly this layout.
    pub open spec fn expects(self, selected: Option<Seq<char>>) -> bool {
        match self.phase {
            Phase::Switching { expected, deadline: _, held: _ } => selected == Some(expected),
            Phase::Selecting { expected, deadline: _ } => selected == Some(expected),
            _ => false,
        }
    }

    /// What becomes of the barrier when a layout turns out to be selected: the confirmation it
    /// waits for starts the settle of a switch and ends a select, and any other changes nothing.
    pub open spec fn after_confirmed(self, selected: Option<Seq<char>>, now: int) -> BarrierView {
        if !self.expects(selected) {
            self
        } else if self.phase is Switching {
            self.with(Phase::Settling { deadline: now + SETTLE, held: self.held() })
        } else {
            self.with(Phase::Idle)
        }
    }

    /// When whatever the barrier waits for is given up or due.
    pub open spec fn deadline(self) -> Option<int> {
        match self.phase {
            Phase::Idle => None,
            Phase::Switching { expected: _, deadline, held: _ } => Some(deadline),
            Phase::Selecting { expected: _, deadline } => Some(deadline),
            Phase::Settling { deadline, held: _ } => Some(deadline),
        }
    }

    /// What becomes of the barrier when the clock is read: past its deadline it is idle.
    pub open spec fn after_tick(self, now: int) -> BarrierView {
        match self.deadline() {
            Some(deadline) if now >= deadline => self.with(Phase::Idle),
            _ => self,
        }
    }

    /// What the clock asks for: the rest of the wait before the deadline, and past it a replay
    /// that says whether the switch was confirmed.
    pub open spec fn elapsed(self, now: int) -> Elapsed {
        match self.deadline() {
            None => Elapsed::Nothing,
            Some(deadline) => if now < deadline {
                Elapsed::Waiting((deadline - now) as u64)
            } else if self.phase is Settling {
                Elapsed::Settled
            } else if self.phase is Switching {
                Elapsed::Unconfirmed
            } else {
                Elapsed::Nothing
            },
        }
    }

    /// What becomes of the barrier when the selection it waits for failed outright.
    pub open spec fn after_select_failed(self) -> BarrierView {
        if self.phase is Switching || self.phase is Selecting {
            self.with(Phase::Idle)
        } else {
            self
        }
    }
}

enum Press {
    First,
    Repeat,
    Release,
}

enum Signal {
    Switch(Press),
    Retype(Press),
    Mouse,
    Other,
}

enum State {
    Idle,
    Switching { expected: LayoutTag, deadline: Instant, held: usize },
    Selecting { expected: LayoutTag, deadline: Instant },
    Settling { deadline: Instant, held: usize },
}

/// The state machine that decides whether a keyboard event passes, is swallowed, or waits.
pub struct Barrier {
    cycle: Vec<LayoutTag>,
    hold: Duration,
    state: State,
}

impl View for Barrier {
    type V = BarrierView;

    closed spec fn view(&self) -> BarrierView {
        BarrierView {
            cycle: tags(self.cycle@),
            hold: self.hold as int,
            phase: match self.state {
                State::Idle => Phase::Idle,
                State::Switching { expected, deadline, held } => Phase::Switching {
                    expected: expected@,
                    deadline: deadline as int,
                    held: held as nat,
                },
                State::Selecting { expected, deadline } => Phase::Selecting {
                    expected: expected@,
                    deadline: deadline as int,
                },
                State::Settling { deadline, held } => Phase::Settling {
                    deadline: deadline as int,
                    held: held as nat,
                },
            },
        }
    }
}

impl Barrier {
    /// Creates a barrier that toggles along `cycle` and waits `hold` for a confirmation.
    pub fn new(cycle: Vec<LayoutTag>, hold: Duration) -> (barrier: Barrier)
        ensures
            barrier@ == (BarrierView {
                cycle: tags(cycle@),
                hold: hold as int,
                phase: Phase::Idle,
            }),
    {
        Barrier { cycle, hold, state: State::Idle }
    }

    /// Returns how many events are waiting for a replay.
    pub fn held(&self) -> (held: usize)
        ensures
            held == self@.held(),
    {
        match &self.state {
            State::Idle => 0,
            State::Switching { expected: _, deadline: _, held } => *held,
            State::Selecting { expected: _, deadline: _ } => 0,
            State::Settling { deadline: _, held } => *held,
        }
    }

    /// Decides what happens to one keyboard event, given the layout selected right now.
    pub fn on_key(
        &mut self,
        event: KeyEvent,
        current: Option<LayoutTag>,
        now: Instant,
    ) -> (decision: Decision)
        requires
            old(self)@.switches_to(event, tag_text(current)) is Some ==> now + old(self)@.hold
                <= u64::MAX,
            is_ordinary(event) && old(self)@.holding() ==> old(self)@.held() < usize::MAX,
        ensures
            final(self)@ == old(self)@.after_key(event, tag_text(current), now as int),
            decision@ == old(self)@.decides(event, tag_text(current)),
    {
        match classify(event) {
            Signal::Switch(Press::First) => self.start_switch(current, now),
            Signal::Switch(Press::Repeat) => Decision::swallow(),
            Signal::Switch(Press::Release) => Decision::swallow(),
            Signal::Retype(Press::First) => self.ask_for_retype(),
            Signal::Retype(Press::Repeat) => Decision::swallow(),
            Signal::Retype(Press::Release) => Decision::swallow(),
            Signal::Mouse => Decision::pass(),
            Signal::Other => self.hold_or_pass(),
        }
    }

    /// Announces a select the daemon makes without a key, and returns whether it may proceed.
    ///
    /// A key-driven switch owns its window, so this is refused while one is running and while its
    /// held events are settling.
    pub fn on_select(&mut self, expected: LayoutTag, now: Instant) -> (accepted: bool)
        requires
            !old(self)@.holding() ==> now + old(self)@.hold <= u64::MAX,
        ensures
            accepted <==> !old(self)@.holding(),
            final(self)@ == old(self)@.after_select(expected@, now as int),
    {
        if self.owns_window() {
            return false;
        }
        self.state = State::Selecting { expected, deadline: now + self.hold };
        true
    }

    /// Announces a retype whose `held` strokes are queued already, and returns whether it may
    /// proceed.
    ///
    /// From here on the retype is a key-driven switch like any other, so it is refused while one
    /// is running and while its held events are settling.
    pub fn on_retype(&mut self, target: LayoutTag, held: usize, now: Instant) -> (accepted: bool)
        requires
            !old(self)@.holding() ==> now + old(self)@.hold <= u64::MAX,
        ensures
            accepted <==> !old(self)@.holding(),
            final(self)@ == old(self)@.after_retype(target@, held as nat, now as int),
    {
        if self.owns_window() {
            return false;
        }
        self.state = State::Switching { expected: target, deadline: now + self.hold, held };
        true
    }

    /// Reports the layout that is selected now, and returns what the daemon must do about it.
    ///
    /// A key-driven switch does not replay on its confirmation: the applications downstream learn
    /// of the change after moji does, so the held events wait [`SETTLE`] longer.
    pub fn confirmed(&mut self, now_selected: Option<LayoutTag>, now: Instant) -> (confirmed:
        Confirmed)
        requires
            old(self)@.phase is Switching && old(self)@.expects(tag_text(now_selected)) ==> now
                + SETTLE <= u64::MAX,
        ensures
            confirmed == Confirmed::Settling <==> old(self)@.phase is Switching && old(
                self,
            )@.expects(tag_text(now_selected)),
            final(self)@ == old(self)@.after_confirmed(tag_text(now_selected), now as int),
    {
        let Some(now_selected) = now_selected else {
            return Confirmed::Nothing;
        };
        match &self.state {
            State::Idle => Confirmed::Nothing,
            State::Switching { expected, deadline: _, held } => {
                if !expected.same(&now_selected) {
                    return Confirmed::Nothing;
                }
                self.state = State::Settling { deadline: now + SETTLE, held: *held };
                Confirmed::Settling
            },
            State::Selecting { expected, deadline: _ } => {
                if !expected.same(&now_selected) {
                    return Confirmed::Nothing;
                }
                self.state = State::Idle;
                Confirmed::Nothing
            },
            State::Settling { deadline: _, held: _ } => Confirmed::Nothing,
        }
    }

    /// Reports the clock, and returns what the deadline that passed asks for.
    pub fn tick(&mut self, now: Instant) -> (elapsed: Elapsed)
        ensures
            elapsed == old(self)@.elapsed(now as int),
            final(self)@ == old(self)@.after_tick(now as int),
    {
        match &self.state {
            State::Idle => Elapsed::Nothing,
            State::Switching { expected: _, deadline, held: _ } => {
                if now < *deadline {
                    return Elapsed::Waiting(*deadline - now);
                }
                self.state = State::Idle;
                Elapsed::Unconfirmed
            },
            State::Selecting { expected: _, deadline } => {
                if now < *deadline {
                    return Elapsed::Waiting(*deadline - now);
                }
                self.state = State::Idle;
                Elapsed::Nothing
            },
            State::Settling { deadline, held: _ } => {
                if now < *deadline {
                    return Elapsed::Waiting(*deadline - now);
                }
                self.state = State::Idle;
                Elapsed::Settled
            },
        }
    }

    /// Reports that the selection itself failed, and returns whether the held events must replay.
    pub fn select_failed(&mut self) -> (replay: bool)
        ensures
            replay <==> old(self)@.phase is Switching,
            final(self)@ == old(self)@.after_select_failed(),
    {
        match &self.state {
            State::Idle => false,
            State::Switching { expected: _, deadline: _, held: _ } => {
                self.state = State::Idle;
                true
            },
            State::Selecting { expected: _, deadline: _ } => {
                self.state = State::Idle;
                false
            },
            State::Settling { deadline: _, held: _ } => false,
        }
    }

    /// Returns the layout whose confirmation is waited for.
    pub fn awaited(&self) -> (awaited: Option<&LayoutTag>)
        ensures
            self@.awaited() == match awaited {
                Some(awaited) => Some(awaited@),
                None => None,
            },
    {
        match &self.state {
            State::Idle => None,
            State::Switching { expected, deadline: _, held: _ } => Some(expected),
            State::Selecting { expected, deadline: _ } => Some(expected),
            State::Settling { deadline: _, held: _ } => None,
        }
    }

    /// Returns whether a key-driven switch owns the keyboard, so that its events wait.
    pub fn owns_window(&self) -> (owns: bool)
        ensures
            owns <==> self@.holding(),
    {
        match &self.state {
            State::Idle => false,
            State::Switching { expected: _, deadline: _, held: _ } => true,
            State::Selecting { expected: _, deadline: _ } => false,
            State::Settling { deadline: _, held: _ } => true,
        }
    }

    fn start_switch(&mut self, current: Option<LayoutTag>, now: Instant) -> (decision: Decision)
        requires
            !old(self)@.holding() && next_tag(
                old(self)@.cycle,
                old(self)@.walks_from(tag_text(current)),
            ) is Some ==> now + old(self)@.hold <= u64::MAX,
        ensures
            ({
                let after = next_tag(old(self)@.cycle, old(self)@.walks_from(tag_text(current)));
                if !old(self)@.holding() && after is Some {
                    &&& final(self)@ == old(self)@.switching(after->0, 0, now as int)
                    &&& decision@ == (DecisionView {
                        verdict: Verdict::Swallow,
                        request: RequestView::Select(after->0),
                    })
                } else {
                    &&& final(self)@ == old(self)@
                    &&& decision@ == plain(Verdict::Swallow)
                }
            }),
    {
        let from = match &self.state {
            State::Idle => current,
            State::Switching { expected: _, deadline: _, held: _ } => {
                return Decision::swallow();
            },
            State::Selecting { expected, deadline: _ } => Some(expected.clone()),
            State::Settling { deadline: _, held: _ } => {
                return Decision::swallow();
            },
        };
        let Some(next) = next(self.cycle.as_slice(), from.as_ref()) else {
            return Decision::swallow();
        };
        self.state = State::Switching {
            expected: next.clone(),
            deadline: now + self.hold,
            held: 0,
        };
        Decision { verdict: Verdict::Swallow, request: Request::Select(next) }
    }

    fn ask_for_retype(&self) -> (decision: Decision)
        ensures
            decision@ == (DecisionView {
                verdict: Verdict::Swallow,
                request: if self@.holding() {
                    RequestView::Nothing
                } else {
                    RequestView::Retype
                },
            }),
    {
        if self.owns_window() {
            return Decision::swallow();
        }
        Decision { verdict: Verdict::Swallow, request: Request::Retype }
    }

    fn hold_or_pass(&mut self) -> (decision: Decision)
        requires
            old(self)@.holding() ==> old(self)@.held() < usize::MAX,
        ensures
            final(self)@ == old(self)@.one_more(),
            decision@ == plain(
                if old(self)@.holding() {
                    Verdict::Hold
                } else {
                    Verdict::Pass
                },
            ),
    {
        match &mut self.state {
            State::Idle => Decision::pass(),
            State::Switching { expected: _, deadline: _, held } => {
                *held += 1;
                Decision::hold()
            },
            State::Selecting { expected: _, deadline: _ } => Decision::pass(),
            State::Settling { deadline: _, held } => {
                *held += 1;
                Decision::hold()
            },
        }
    }
}

fn classify(event: KeyEvent) -> (signal: Signal)
    ensures
        match signal {
            Signal::Switch(press) => {
                &&& is_signal(event)
                &&& event.keycode == SWITCH_KEYCODE
                &&& press is First <==> is_press(event, SWITCH_KEYCODE)
            },
            Signal::Retype(press) => {
                &&& is_signal(event)
                &&& event.keycode == RETYPE_KEYCODE
                &&& press is First <==> is_press(event, RETYPE_KEYCODE)
            },
            Signal::Mouse => event.kind == EventKind::MouseDown,
            Signal::Other => is_ordinary(event),
        },
{
    let press = match event.kind {
        EventKind::Down => match event.stroke {
            Stroke::First => Press::First,
            Stroke::Repeat => Press::Repeat,
        },
        EventKind::Up => Press::Release,
        EventKind::Flags => {
            return Signal::Other;
        },
        EventKind::MouseDown => {
            return Signal::Mouse;
        },
    };
    if event.keycode == SWITCH_KEYCODE {
        return Signal::Switch(press);
    }
    if event.keycode == RETYPE_KEYCODE {
        return Signal::Retype(press);
    }
    Signal::Other
}

/// A signal key never reaches anything downstream: it is swallowed in every state.
pub proof fn a_signal_key_never_passes(
    barrier: BarrierView,
    event: KeyEvent,
    current: Option<Seq<char>>,
)
    requires
        is_signal(event),
    ensures
        barrier.decides(event, current).verdict == Verdict::Swallow,
{
}

/// A click passes in every state and leaves the barrier as it was.
pub proof fn a_click_always_passes(
    barrier: BarrierView,
    event: KeyEvent,
    current: Option<Seq<char>>,
    now: int,
)
    requires
        event.kind == EventKind::MouseDown,
    ensures
        barrier.decides(event, current) == plain(Verdict::Pass),
        barrier.after_key(event, current, now) == barrier,
{
}

/// Any other key waits while a switch owns the keyboard and passes at every other time.
pub proof fn a_key_waits_only_while_a_switch_owns_the_keyboard(
    barrier: BarrierView,
    event: KeyEvent,
    current: Option<Seq<char>>,
)
    requires
        is_ordinary(event),
    ensures
        barrier.decides(event, current) == plain(
            if barrier.holding() {
                Verdict::Hold
            } else {
                Verdict::Pass
            },
        ),
{
}

/// One event as the barrier meets it: with the layout selected at that moment, and the time.
pub struct Seen {
    /// The event.
    pub event: KeyEvent,
    /// The layout selected right then.
    pub current: Option<Seq<char>>,
    /// When the tap handed it over.
    pub now: int,
}

/// What becomes of the barrier once it met all these events, one after the other.
pub open spec fn after_keys(barrier: BarrierView, seen: Seq<Seen>) -> BarrierView
    decreases seen.len(),
{
    if seen.len() == 0 {
        barrier
    } else {
        let last = seen.last();
        after_keys(barrier, seen.drop_last()).after_key(last.event, last.current, last.now)
    }
}

/// Every key typed while a switch owns the keyboard waits, however many there are, and none of
/// them puts off the moment they go through.
pub proof fn every_key_typed_into_a_switch_waits(barrier: BarrierView, seen: Seq<Seen>)
    requires
        barrier.holding(),
        forall|i: int| 0 <= i < seen.len() ==> is_ordinary((#[trigger] seen[i]).event),
    ensures
        after_keys(barrier, seen).holding(),
        after_keys(barrier, seen).held() == barrier.held() + seen.len(),
        after_keys(barrier, seen).deadline() == barrier.deadline(),
        forall|i: int|
            0 <= i < seen.len() ==> after_keys(barrier, #[trigger] seen.take(i)).decides(
                seen[i].event,
                seen[i].current,
            ) == plain(Verdict::Hold),
    decreases seen.len(),
{
    if seen.len() > 0 {
        let before = seen.drop_last();
        every_key_typed_into_a_switch_waits(barrier, before);
        assert(is_ordinary(seen.last().event));
        assert forall|i: int| 0 <= i < seen.len() implies after_keys(
            barrier,
            #[trigger] seen.take(i),
        ).decides(seen[i].event, seen[i].current) == plain(Verdict::Hold) by {
            if i < before.len() {
                assert(seen.take(i) == before.take(i));
                assert(before[i] == seen[i]);
            } else {
                assert(seen.take(i) == before);
            }
        }
    }
}

/// The keyboard never hangs: once the deadline passed the barrier is idle with nothing waiting,
/// and where keys were waiting it says that they go through.
pub proof fn a_passed_deadline_frees_the_keyboard(barrier: BarrierView, now: int)
    requires
        barrier.deadline() matches Some(deadline) && now >= deadline,
    ensures
        barrier.after_tick(now).phase is Idle,
        barrier.after_tick(now).held() == 0,
        barrier.holding() <==> barrier.elapsed(now) == Elapsed::Settled || barrier.elapsed(now)
            == Elapsed::Unconfirmed,
        barrier.elapsed(now) == Elapsed::Settled <==> barrier.phase is Settling,
{
}

/// A switch that owns the keyboard always has a deadline, and nothing but its own confirmation
/// ever moves it: a switch that starts at a moment is over, confirmed or not, within the hold and
/// the settle.
pub proof fn only_its_confirmation_moves_the_deadline_of_a_switch(
    barrier: BarrierView,
    event: KeyEvent,
    tag: Option<Seq<char>>,
    other: Seq<char>,
    held: nat,
    now: int,
)
    requires
        barrier.holding(),
    ensures
        barrier.deadline() is Some,
        barrier.after_key(event, tag, now).deadline() == barrier.deadline(),
        barrier.after_select(other, now).deadline() == barrier.deadline(),
        barrier.after_retype(other, held, now).deadline() == barrier.deadline(),
        barrier.after_confirmed(tag, now).deadline() == if barrier.phase is Switching
            && barrier.expects(tag) {
            Some(now + SETTLE)
        } else {
            barrier.deadline()
        },
        barrier.after_tick(now).holding() ==> barrier.after_tick(now) == barrier,
        !barrier.after_tick(now).holding() ==> now >= barrier.deadline()->0,
        barrier.phase is Settling ==> barrier.after_select_failed() == barrier,
        barrier.phase is Switching ==> !barrier.after_select_failed().holding(),
{
}

/// Keys wait nowhere but in a switch that owns the keyboard.
pub proof fn nothing_waits_outside_a_switch(barrier: BarrierView)
    requires
        !barrier.holding(),
    ensures
        barrier.held() == 0,
{
}

/// A select no key asked for holds nothing, and a confirmation of it leaves nothing behind.
pub proof fn a_select_of_the_daemon_holds_nothing(
    barrier: BarrierView,
    expected: Seq<char>,
    event: KeyEvent,
    current: Option<Seq<char>>,
    now: int,
)
    requires
        !barrier.holding(),
    ensures
        !barrier.after_select(expected, now).holding(),
        is_ordinary(event) ==> barrier.after_select(expected, now).decides(event, current) == plain(
            Verdict::Pass,
        ),
        barrier.after_select(expected, now).after_confirmed(Some(expected), now).phase is Idle,
{
}

/// A switch that is running refuses everything else: a select, a retype and both signal keys
/// leave it as it was.
pub proof fn a_running_switch_refuses_everything_else(
    barrier: BarrierView,
    event: KeyEvent,
    current: Option<Seq<char>>,
    tag: Seq<char>,
    held: nat,
    now: int,
)
    requires
        barrier.holding(),
    ensures
        barrier.after_select(tag, now) == barrier,
        barrier.after_retype(tag, held, now) == barrier,
        is_signal(event) ==> barrier.after_key(event, current, now) == barrier,
        is_signal(event) ==> barrier.decides(event, current) == plain(Verdict::Swallow),
{
}

/// Only a confirmation of exactly the expected layout counts: any other, and a layout nothing
/// names, leaves the barrier waiting.
pub proof fn only_the_expected_layout_confirms(
    barrier: BarrierView,
    selected: Option<Seq<char>>,
    now: int,
)
    ensures
        selected is None ==> barrier.after_confirmed(selected, now) == barrier,
        barrier.phase matches Phase::Switching { expected, deadline: _, held } ==> {
            if selected == Some(expected) {
                barrier.after_confirmed(selected, now) == barrier.with(
                    Phase::Settling { deadline: now + SETTLE, held },
                )
            } else {
                barrier.after_confirmed(selected, now) == barrier
            }
        },
{
}

/// A press of the switch key outside a switch starts one, and in a cycle that no tag stands twice
/// in the layout it selects is never the one it walks from.
pub proof fn a_press_always_asks_for_another_layout(
    barrier: BarrierView,
    event: KeyEvent,
    current: Option<Seq<char>>,
    now: int,
)
    requires
        is_press(event, SWITCH_KEYCODE),
        !barrier.holding(),
        barrier.cycle.no_duplicates(),
        barrier.cycle.len() >= 2,
    ensures
        barrier.after_key(event, current, now).phase is Switching,
        barrier.decides(event, current).request matches RequestView::Select(tag)
            && barrier.cycle.contains(tag) && barrier.walks_from(current) != Some(tag)
            && barrier.after_key(event, current, now).expects(Some(tag)),
{
    let from = barrier.walks_from(current);
    crate::cycle::the_next_layout_is_one_of_the_cycle(barrier.cycle, from);
    if from is Some {
        crate::cycle::a_step_always_changes_the_layout(barrier.cycle, from->0);
    }
}

/// Outside a switch, a press of the switch key is swallowed and asks for the layout right behind
/// the one it walks from, wrapping at the end: behind the one that is selected now where nothing is
/// under way, and behind the one that is being selected where the daemon selects one. The switch
/// to it starts there and then, with nothing waiting yet.
pub proof fn the_switch_key_asks_for_the_layout_behind_the_selected_one(
    barrier: BarrierView,
    event: KeyEvent,
    current: Option<Seq<char>>,
    i: int,
    now: int,
)
    requires
        event.kind == EventKind::Down,
        event.stroke == Stroke::First,
        event.keycode == 80,
        0 <= i < barrier.cycle.len(),
        forall|j: int| 0 <= j < i ==> #[trigger] barrier.cycle[j] != barrier.cycle[i],
        match barrier.phase {
            Phase::Idle => current == Some(barrier.cycle[i]),
            Phase::Selecting { expected, deadline: _ } => expected == barrier.cycle[i],
            _ => false,
        },
    ensures
        ({
            let target = barrier.cycle[(i + 1) % (barrier.cycle.len() as int)];
            &&& barrier.decides(event, current) == (DecisionView {
                verdict: Verdict::Swallow,
                request: RequestView::Select(target),
            })
            &&& barrier.after_key(event, current, now) == (BarrierView {
                cycle: barrier.cycle,
                hold: barrier.hold,
                phase: Phase::Switching {
                    expected: target,
                    deadline: now + barrier.hold,
                    held: 0,
                },
            })
            &&& barrier.cycle.no_duplicates() && barrier.cycle.len() >= 2 ==> target
                != barrier.cycle[i]
        }),
{
    let len = barrier.cycle.len() as int;
    crate::cycle::the_next_layout_stands_right_behind(barrier.cycle, i);
    if i + 1 < len {
        vstd::arithmetic::div_mod::lemma_small_mod((i + 1) as nat, len as nat);
    } else {
        vstd::arithmetic::div_mod::lemma_mod_self_0(len);
    }
}

/// Outside a switch, a press of the switch key with a layout selected that the cycle does not
/// carry, or one no tag names, starts a switch to the first entry.
pub proof fn the_switch_key_leads_back_into_the_cycle(
    barrier: BarrierView,
    event: KeyEvent,
    current: Option<Seq<char>>,
    now: int,
)
    requires
        event.kind == EventKind::Down,
        event.stroke == Stroke::First,
        event.keycode == 80,
        barrier.cycle.len() > 0,
        match barrier.phase {
            Phase::Idle => forall|i: int|
                0 <= i < barrier.cycle.len() ==> current != Some(#[trigger] barrier.cycle[i]),
            Phase::Selecting { expected, deadline: _ } => forall|i: int|
                0 <= i < barrier.cycle.len() ==> expected != #[trigger] barrier.cycle[i],
            _ => false,
        },
    ensures
        barrier.decides(event, current) == (DecisionView {
            verdict: Verdict::Swallow,
            request: RequestView::Select(barrier.cycle[0]),
        }),
        barrier.after_key(event, current, now) == (BarrierView {
            cycle: barrier.cycle,
            hold: barrier.hold,
            phase: Phase::Switching {
                expected: barrier.cycle[0],
                deadline: now + barrier.hold,
                held: 0,
            },
        }),
{
    let from = match barrier.phase {
        Phase::Selecting { expected, deadline: _ } => Some(expected),
        _ => current,
    };
    assert forall|i: int| 0 <= i < barrier.cycle.len() implies from != Some(
        #[trigger] barrier.cycle[i],
    ) by {}
    crate::cycle::anything_outside_the_cycle_goes_to_its_first_entry(barrier.cycle, from);
}

/// Both signal keys are swallowed whatever they do and whenever they do it. Nothing but a press of
/// them outside a switch asks for anything, and nothing but a press of the switch key there, with
/// a cycle to walk, changes what the barrier waits for.
pub proof fn nothing_but_a_press_of_a_signal_key_asks_for_anything(
    barrier: BarrierView,
    event: KeyEvent,
    current: Option<Seq<char>>,
    now: int,
)
    requires
        event.kind == EventKind::Down || event.kind == EventKind::Up,
        event.keycode == 80 || event.keycode == 79,
    ensures
        ({
            let decision = barrier.decides(event, current);
            let after = barrier.after_key(event, current, now);
            let press = event.kind == EventKind::Down && event.stroke == Stroke::First;
            let free = barrier.phase is Idle || barrier.phase is Selecting;
            &&& decision.verdict == Verdict::Swallow
            &&& decision.request is Select <==> press && free && event.keycode == 80
                && barrier.cycle.len() > 0
            &&& decision.request is Retype <==> press && free && event.keycode == 79
            &&& !(decision.request is Select) ==> after == barrier
        }),
{
    crate::cycle::the_next_layout_is_one_of_the_cycle(
        barrier.cycle,
        barrier.walks_from(current),
    );
}

/// Any other key, and a modifier whatever its number, waits while a switch runs or settles and is
/// counted there; it passes at every other time. It never asks for anything, and it moves neither
/// the deadline nor the layout that is waited for. A click always passes.
pub proof fn any_other_event_waits_only_in_a_switch(
    barrier: BarrierView,
    event: KeyEvent,
    current: Option<Seq<char>>,
    now: int,
)
    requires
        event.kind == EventKind::Flags || event.kind == EventKind::MouseDown || (event.keycode
            != 80 && event.keycode != 79),
    ensures
        barrier.decides(event, current).request is Nothing,
        event.kind == EventKind::MouseDown ==> barrier.decides(event, current).verdict
            == Verdict::Pass && barrier.after_key(event, current, now) == barrier,
        event.kind != EventKind::MouseDown ==> match barrier.phase {
            Phase::Idle => barrier.decides(event, current).verdict == Verdict::Pass
                && barrier.after_key(event, current, now) == barrier,
            Phase::Selecting { expected: _, deadline: _ } => barrier.decides(
                event,
                current,
            ).verdict == Verdict::Pass && barrier.after_key(event, current, now) == barrier,
            Phase::Switching { expected, deadline, held } => {
                &&& barrier.decides(event, current).verdict == Verdict::Hold
                &&& barrier.after_key(event, current, now) == (BarrierView {
                    cycle: barrier.cycle,
                    hold: barrier.hold,
                    phase: Phase::Switching { expected, deadline, held: held + 1 },
                })
            },
            Phase::Settling { deadline, held } => {
                &&& barrier.decides(event, current).verdict == Verdict::Hold
                &&& barrier.after_key(event, current, now) == (BarrierView {
                    cycle: barrier.cycle,
                    hold: barrier.hold,
                    phase: Phase::Settling { deadline, held: held + 1 },
                })
            },
        },
{
}

/// A select of the daemon and a retype take the keyboard only where no switch has it. From then on
/// the one waits for its layout without holding anything, and the other is a switch with its
/// strokes waiting; both are given up once the hold is over.
pub proof fn a_select_and_a_retype_start_only_outside_a_switch(
    barrier: BarrierView,
    tag: Seq<char>,
    held: nat,
    now: int,
)
    ensures
        ({
            let free = barrier.phase is Idle || barrier.phase is Selecting;
            &&& barrier.holding() <==> !free
            &&& barrier.after_select(tag, now) == if free {
                BarrierView {
                    cycle: barrier.cycle,
                    hold: barrier.hold,
                    phase: Phase::Selecting { expected: tag, deadline: now + barrier.hold },
                }
            } else {
                barrier
            }
            &&& barrier.after_retype(tag, held, now) == if free {
                BarrierView {
                    cycle: barrier.cycle,
                    hold: barrier.hold,
                    phase: Phase::Switching {
                        expected: tag,
                        deadline: now + barrier.hold,
                        held,
                    },
                }
            } else {
                barrier
            }
        }),
{
}

/// A confirmation counts only for the very layout that is waited for. It starts the settle of a
/// switch, which ends ten milliseconds later with everything that waited still waiting, and it ends
/// a select of the daemon.
pub proof fn a_confirmation_settles_a_switch_and_ends_a_select(
    barrier: BarrierView,
    selected: Option<Seq<char>>,
    now: int,
)
    ensures
        ({
            let after = barrier.after_confirmed(selected, now);
            match barrier.phase {
                Phase::Switching { expected, deadline: _, held } => {
                    &&& barrier.expects(selected) <==> selected == Some(expected)
                    &&& after == if selected == Some(expected) {
                        BarrierView {
                            cycle: barrier.cycle,
                            hold: barrier.hold,
                            phase: Phase::Settling { deadline: now + 10_000_000, held },
                        }
                    } else {
                        barrier
                    }
                },
                Phase::Selecting { expected, deadline: _ } => {
                    &&& barrier.expects(selected) <==> selected == Some(expected)
                    &&& after == if selected == Some(expected) {
                        BarrierView {
                            cycle: barrier.cycle,
                            hold: barrier.hold,
                            phase: Phase::Idle,
                        }
                    } else {
                        barrier
                    }
                },
                _ => after == barrier && !barrier.expects(selected),
            }
        }),
{
}

/// Before its deadline a wait goes on for exactly the time that is left. From the deadline on the
/// barrier is idle: a settled switch says so, one that was never confirmed says that, and a select
/// of the daemon is given up without a word.
pub proof fn a_wait_is_over_at_its_deadline(barrier: BarrierView, now: int)
    ensures
        ({
            let idle = BarrierView {
                cycle: barrier.cycle,
                hold: barrier.hold,
                phase: Phase::Idle,
            };
            match barrier.phase {
                Phase::Idle => barrier.elapsed(now) == Elapsed::Nothing && barrier.after_tick(now)
                    == barrier,
                Phase::Switching { expected: _, deadline, held: _ } => {
                    &&& now >= deadline ==> barrier.elapsed(now) == Elapsed::Unconfirmed
                        && barrier.after_tick(now) == idle
                    &&& now < deadline && deadline - now <= u64::MAX ==> barrier.after_tick(now)
                        == barrier && (barrier.elapsed(now) matches Elapsed::Waiting(left) && left
                        == deadline - now)
                },
                Phase::Selecting { expected: _, deadline } => {
                    &&& now >= deadline ==> barrier.elapsed(now) == Elapsed::Nothing
                        && barrier.after_tick(now) == idle
                    &&& now < deadline && deadline - now <= u64::MAX ==> barrier.after_tick(now)
                        == barrier && (barrier.elapsed(now) matches Elapsed::Waiting(left) && left
                        == deadline - now)
                },
                Phase::Settling { deadline, held: _ } => {
                    &&& now >= deadline ==> barrier.elapsed(now) == Elapsed::Settled
                        && barrier.after_tick(now) == idle
                    &&& now < deadline && deadline - now <= u64::MAX ==> barrier.after_tick(now)
                        == barrier && (barrier.elapsed(now) matches Elapsed::Waiting(left) && left
                        == deadline - now)
                },
            }
        }),
{
}

/// A selection that failed ends the wait for it, and leaves a settle and an idle barrier alone.
pub proof fn a_failed_selection_ends_the_wait_for_it(barrier: BarrierView)
    ensures
        barrier.after_select_failed() == match barrier.phase {
            Phase::Switching { expected: _, deadline: _, held: _ } => BarrierView {
                cycle: barrier.cycle,
                hold: barrier.hold,
                phase: Phase::Idle,
            },
            Phase::Selecting { expected: _, deadline: _ } => BarrierView {
                cycle: barrier.cycle,
                hold: barrier.hold,
                phase: Phase::Idle,
            },
            _ => barrier,
        },
{
}

/// What waits, for which layout and until when is what the running switch or select was given.
pub proof fn a_barrier_tells_what_it_waits_for(barrier: BarrierView)
    ensures
        match barrier.phase {
            Phase::Idle => barrier.held() == 0 && barrier.awaited() is None
                && barrier.deadline() is None,
            Phase::Switching { expected, deadline, held } => barrier.held() == held
                && barrier.awaited() == Some(expected) && barrier.deadline() == Some(deadline),
            Phase::Selecting { expected, deadline } => barrier.held() == 0 && barrier.awaited()
                == Some(expected) && barrier.deadline() == Some(deadline),
            Phase::Settling { deadline, held } => barrier.held() == held
                && barrier.awaited() is None && barrier.deadline() == Some(deadline),
        },
{
}

/// What an event is to the barrier: F19 and F18 going down or coming up are the signal keys, and
/// what is neither one of them nor a click is ordinary.
pub proof fn an_event_is_a_signal_a_click_or_ordinary(event: KeyEvent, keycode: u16)
    ensures
        is_signal(event) <==> (event.kind == EventKind::Down || event.kind == EventKind::Up) && (
        event.keycode == 80 || event.keycode == 79),
        is_press(event, keycode) <==> event.kind == EventKind::Down && event.stroke
            == Stroke::First && event.keycode == keycode,
        is_ordinary(event) <==> event.kind != EventKind::MouseDown && !(event.kind
            != EventKind::Flags && (event.keycode == 80 || event.keycode == 79)),
{
}

/// A request and a decision say what they are, with the tag as it is spelled.
pub proof fn a_decision_says_what_it_is(decision: Decision, tag: LayoutTag)
    ensures
        Request::Nothing@ is Nothing,
        Request::Retype@ is Retype,
        Request::Select(tag)@ == RequestView::Select(tag.0@),
        decision@.verdict == decision.verdict,
        decision@.request == decision.request@,
        forall|verdict: Verdict|
            (#[trigger] plain(verdict)).verdict == verdict && plain(verdict).request is Nothing,
{
}

} // verus!
