//! The daemon: what the run loop sources feed, and what each of them asks for.
//!
//! The tap hands keyboard events to the barrier, the input source observer confirms the switch,
//! the focus poll notices the keyboard moving to another application, and the watchdog releases
//! the held keys when no confirmation arrives in time. Each of them is one call here, which takes
//! what was read from the system as plain values and returns a [`Step`]: what to do with the
//! watchdog, what to post, and what to select before the next call.

use vstd::prelude::*;

use crate::barrier::{
    is_ordinary, Barrier, BarrierView, Confirmed, Decision, Elapsed, EventKind, KeyEvent, Phase,
    Request, RequestView, Stroke, Verdict, SETTLE, SWITCH_KEYCODE,
};
use crate::clock::{Duration, Instant, MILLISECOND};
use crate::cycle::tag_text;
use crate::history::{
    a_flip_keeps_the_keystrokes, a_flip_never_reaches_past_its_run, action, asked_of_history,
    flip_text, moves_the_caret, Action, Flip, FlipView, History, HistoryView, Kind, COMMAND,
    CONTROL,
};
use crate::macos::focus::{app_text, moved, moved_to};
use crate::macos::tap::{
    all_made, answered, backspaces, carried_by, replayed, strokes, Answer, CarriedEvent, Copies,
    Deletions, Held, HeldEvent, Kept, TapError,
};
use crate::macos::timer::TimerError;
use crate::macos::tis::{copies_of, tags, Layout, LayoutTag, LayoutView};
use crate::macos::workspace::BundleId;
use crate::memory::{Memory, MemoryView};
use crate::ordered::{lookup, table, OrderedMap};
use crate::text::{standing, Standing};

verus! {

/// How long a switch may wait for its confirmation before the held keys go through anyway.
pub const HOLD: Duration = 50 * MILLISECOND;

/// How often the watchdog had to release held events, and how many the last release let go.
#[derive(Debug, Clone, Copy, PartialEq, Eq, Structural)]
pub struct Releases {
    /// How many times a deadline passed with events still waiting.
    pub count: usize,
    /// How many events the last of those releases let go.
    pub last: usize,
}

impl Default for Releases {
    fn default() -> (releases: Releases)
        ensures
            releases == (Releases { count: 0, last: 0 }),
    {
        Releases { count: 0, last: 0 }
    }
}

/// What can go wrong when starting the daemon.
#[derive(Debug, Clone, Copy, PartialEq, Eq, Structural)]
pub enum StartError {
    /// The keyboard tap could not be installed.
    Tap(TapError),
    /// A run loop timer could not be installed.
    Timer(TimerError),
}

impl StartError {
    /// Returns the error in words, which are those of whatever could not be installed.
    pub fn to_string(&self) -> (printed: String)
        ensures
            printed@ == match *self {
                StartError::Tap(error) => error.words(),
                StartError::Timer(error) => error.words(),
            },
    {
        match self {
            StartError::Tap(error) => error.to_string(),
            StartError::Timer(error) => error.to_string(),
        }
    }
}

/// Whether the entry at `i` is the first whose layout carries this name.
pub open spec fn is_tag_named(
    layouts: Seq<(Seq<char>, LayoutView)>,
    name: Seq<char>,
    i: int,
) -> bool {
    &&& 0 <= i < layouts.len()
    &&& layouts[i].1.name == name
    &&& forall|j: int| 0 <= j < i ==> (#[trigger] layouts[j]).1.name != name
}

/// The tag under which a table carries the layout with this localized name.
pub open spec fn tag_under(layouts: Seq<(Seq<char>, LayoutView)>, name: Seq<char>) -> Option<
    Seq<char>,
> {
    if exists|i: int| is_tag_named(layouts, name, i) {
        Some(layouts[choose|i: int| is_tag_named(layouts, name, i)].0)
    } else {
        None
    }
}

/// Returns the tag under which `layouts` carries the layout with this localized name.
pub fn tag_named(layouts: &OrderedMap<LayoutTag, Layout>, name: &str) -> (tag: Option<LayoutTag>)
    ensures
        tag_text(tag) == tag_under(layouts@, name@),
{
    let len: usize = layouts.len();
    let mut index: usize = 0;
    while index < len
        invariant
            len == layouts@.len(),
            index <= len,
            forall|j: int| 0 <= j < index ==> (#[trigger] layouts@[j]).1.name != name@,
        decreases len - index,
    {
        if let Standing::Same = standing(layouts.value_at(index).name.as_str(), name) {
            proof {
                assert(is_tag_named(layouts@, name@, index as int));
                let found = choose|i: int| is_tag_named(layouts@, name@, i);
                assert(found == index);
            }
            return Some(layouts.key_at(index).clone());
        }
        index += 1;
    }
    None
}

/// Whether a retype has to select another layout first.
#[derive(Debug, Clone, Copy, PartialEq, Eq, Structural)]
pub enum Switch {
    /// Another layout is selected.
    Needed,
    /// The layout to retype in is selected already.
    Unnecessary,
}

/// What to do with the watchdog.
#[derive(Debug, Clone, Copy, PartialEq, Eq, Structural)]
pub enum Watchdog {
    /// Leave it as it is.
    Keep,
    /// Make it fire once, this long from now, whatever was pending.
    Arm(Duration),
    /// Keep it quiet until it is armed again.
    Disarm,
}

/// What has to be done before the daemon goes on.
#[derive(Debug, PartialEq, Eq)]
pub enum Task {
    /// Nothing.
    Nothing,
    /// Select the layout and report back through [`State::on_selected`].
    Select {
        /// The tag the layout stands under.
        tag: LayoutTag,
        /// The layout.
        layout: Layout,
    },
    /// Select the layout and report back through [`State::on_retype_selected`].
    SelectToRetype {
        /// What is retyped, and the tag the layout stands under.
        flip: Flip,
        /// The layout.
        layout: Layout,
    },
    /// Make the backspaces and the copies of the covered keystrokes, and hand them to
    /// [`State::retype`].
    Retype {
        /// What is retyped.
        flip: Flip,
        /// Whether another layout was selected for it.
        switch: Switch,
    },
}

/// A task as plain text.
pub enum TaskView {
    /// Nothing.
    Nothing,
    /// Select a layout.
    Select {
        /// The tag the layout stands under.
        tag: Seq<char>,
        /// The layout.
        layout: LayoutView,
    },
    /// Select a layout to retype in.
    SelectToRetype {
        /// What is retyped.
        flip: FlipView,
        /// The layout.
        layout: LayoutView,
    },
    /// Make the backspaces and the copies.
    Retype {
        /// What is retyped.
        flip: FlipView,
        /// Whether another layout was selected for it.
        switch: Switch,
    },
}

impl View for Task {
    type V = TaskView;

    open spec fn view(&self) -> TaskView {
        match self {
            Task::Nothing => TaskView::Nothing,
            Task::Select { tag, layout } => TaskView::Select { tag: tag@, layout: layout@ },
            Task::SelectToRetype { flip, layout } => TaskView::SelectToRetype {
                flip: flip@,
                layout: layout@,
            },
            Task::Retype { flip, switch } => TaskView::Retype { flip: flip@, switch: *switch },
        }
    }
}

/// What one call asks for: the events are posted in order, the watchdog is set, and then the task
/// is done.
#[derive(Debug, PartialEq, Eq)]
pub struct Step<H> {
    /// What to do with the watchdog.
    pub watchdog: Watchdog,
    /// What to post to the session, in this order.
    pub post: Vec<HeldEvent<H>>,
    /// What has to be done before the daemon goes on.
    pub task: Task,
}

/// A step as plain data.
#[verifier::ext_equal]
pub struct StepView<H> {
    /// What to do with the watchdog.
    pub watchdog: Watchdog,
    /// What to post to the session, in this order.
    pub post: Seq<HeldEvent<H>>,
    /// What has to be done before the daemon goes on.
    pub task: TaskView,
}

impl<H> View for Step<H> {
    type V = StepView<H>;

    open spec fn view(&self) -> StepView<H> {
        StepView { watchdog: self.watchdog, post: self.post@, task: self.task@ }
    }
}

impl<H> StepView<H> {
    /// A step that asks for nothing.
    pub open spec fn quiet() -> StepView<H> {
        StepView { watchdog: Watchdog::Keep, post: Seq::empty(), task: TaskView::Nothing }
    }

    /// A step that only asks for a task.
    pub open spec fn asking(task: TaskView) -> StepView<H> {
        StepView { watchdog: Watchdog::Keep, post: Seq::empty(), task }
    }

    /// A step that only arms the watchdog.
    pub open spec fn arming(after: Duration) -> StepView<H> {
        StepView {
            watchdog: Watchdog::Arm(after),
            post: Seq::empty(),
            task: TaskView::Nothing,
        }
    }
}

impl<H> Step<H> {
    fn quiet() -> (step: Step<H>)
        ensures
            step@ == StepView::<H>::quiet(),
    {
        Step { watchdog: Watchdog::Keep, post: Vec::new(), task: Task::Nothing }
    }

    fn asking(task: Task) -> (step: Step<H>)
        ensures
            step@ == StepView::<H>::asking(task@),
    {
        Step { watchdog: Watchdog::Keep, post: Vec::new(), task }
    }

    fn arming(after: Duration) -> (step: Step<H>)
        ensures
            step@ == StepView::<H>::arming(after),
    {
        Step { watchdog: Watchdog::Arm(after), post: Vec::new(), task: Task::Nothing }
    }
}

/// Everything the daemon knows, as plain data.
#[verifier::ext_equal]
pub struct StateView<H> {
    /// What the barrier is waiting for.
    pub barrier: BarrierView,
    /// Which layout each application gets.
    pub memory: MemoryView,
    /// The configured layouts, in the order of their tags.
    pub layouts: Seq<(Seq<char>, LayoutView)>,
    /// The events that are held back, in arrival order.
    pub held: Seq<HeldEvent<H>>,
    /// How often the watchdog had to release them.
    pub releases: Releases,
    /// How long a switch may wait for its confirmation.
    pub hold: Duration,
    /// When the last switch started.
    pub switched_at: Option<Instant>,
    /// The application the keyboard goes to, as far as it was read.
    pub focused: Option<Seq<char>>,
    /// The layout the daemon believes is selected.
    pub current: Option<Seq<char>>,
    /// What was typed.
    pub history: HistoryView<HeldEvent<H>>,
    /// The tags a switch walks, in order.
    pub cycle: Seq<Seq<char>>,
}

/// What an optional layout looks like.
pub open spec fn layout_text(layout: Option<&Layout>) -> Option<LayoutView> {
    match layout {
        Some(layout) => Some(layout@),
        None => None,
    }
}

impl<H> StateView<H> {
    /// Whether the clock has room for the deadline of a switch.
    pub open spec fn in_time(self, now: Instant) -> bool {
        now + self.barrier.hold <= u64::MAX
    }

    /// The tag the selected layout stands under, if any.
    pub open spec fn tag_of(self, selected: Option<LayoutView>) -> Option<Seq<char>> {
        match selected {
            Some(layout) => tag_under(self.layouts, layout.name),
            None => None,
        }
    }

    /// The step that lets the held events go: the watchdog goes quiet and they are posted in
    /// arrival order.
    pub open spec fn step_release(self) -> StepView<H> {
        StepView {
            watchdog: Watchdog::Disarm,
            post: replayed(self.held),
            task: TaskView::Nothing,
        }
    }

    /// The daemon once the held events went out.
    pub open spec fn after_release(self) -> StateView<H> {
        StateView { held: Seq::empty(), ..self }
    }

    /// The daemon once an event that passes or waits was typed.
    pub open spec fn after_typed(
        self,
        event: KeyEvent,
        captured: Option<HeldEvent<H>>,
    ) -> StateView<H> {
        StateView {
            history: match asked_of_history(event) {
                Action::Ignore => self.history,
                Action::Erase => self.history.after_erase(),
                Action::Clear => HistoryView::nothing(),
                Action::Record(kind) => match captured {
                    Some(captured) => self.history.after_record(kind, self.current, captured),
                    None => HistoryView::nothing(),
                },
            },
            ..self
        }
    }

    /// The daemon once it knows how selecting a layout went.
    pub open spec fn after_selected(self, tag: Seq<char>, selected: bool) -> StateView<H> {
        if selected {
            StateView { current: Some(tag), ..self }
        } else {
            let failed = StateView { barrier: self.barrier.after_select_failed(), ..self };
            if self.barrier.phase is Switching {
                failed.after_release()
            } else {
                failed
            }
        }
    }

    /// What is asked for once it is known how selecting a layout went: a switch that failed lets
    /// its keys go at once.
    pub open spec fn step_selected(self, selected: bool) -> StepView<H> {
        if !selected && self.barrier.phase is Switching {
            self.step_release()
        } else {
            StepView::quiet()
        }
    }

    /// The daemon once a switch the barrier accepted started: a tag without a layout fails as a
    /// refused selection does.
    pub open spec fn after_begun(self, tag: Seq<char>, now: Instant) -> StateView<H> {
        let begun = StateView { switched_at: Some(now), ..self };
        if lookup(self.layouts, tag) is Some {
            begun
        } else {
            begun.after_selected(tag, false)
        }
    }

    /// What is asked for once a switch the barrier accepted started.
    pub open spec fn step_begun(self, tag: Seq<char>) -> StepView<H> {
        match lookup(self.layouts, tag) {
            Some(layout) => StepView {
                watchdog: Watchdog::Arm(self.hold),
                post: Seq::empty(),
                task: TaskView::Select { tag, layout },
            },
            None => if self.barrier.phase is Switching {
                self.step_release()
            } else {
                StepView::arming(self.hold)
            },
        }
    }

    /// The layout the barrier is told of with this event: only the switch key asks for it.
    pub open spec fn current_for(self, event: KeyEvent, selected: Option<LayoutView>) -> Option<
        Seq<char>,
    > {
        if event.keycode == SWITCH_KEYCODE {
            self.tag_of(selected)
        } else {
            None
        }
    }

    /// The daemon with the barrier it has once the tap handed over an event.
    pub open spec fn with_key(
        self,
        event: KeyEvent,
        selected: Option<LayoutView>,
        now: Instant,
    ) -> StateView<H> {
        StateView {
            barrier: self.barrier.after_key(event, self.current_for(event, selected), now as int),
            ..self
        }
    }

    /// The daemon once the tap handed over an event.
    pub open spec fn after_key(
        self,
        event: KeyEvent,
        captured: Option<HeldEvent<H>>,
        selected: Option<LayoutView>,
        now: Instant,
    ) -> StateView<H> {
        let decision = self.barrier.decides(event, self.current_for(event, selected));
        let decided = self.with_key(event, selected, now);
        match decision.request {
            RequestView::Nothing => if decision.verdict == Verdict::Swallow {
                decided
            } else {
                decided.after_typed(event, captured)
            },
            RequestView::Retype => decided,
            RequestView::Select(tag) => decided.after_begun(tag, now),
        }
    }

    /// What is asked for once the tap handed over an event.
    pub open spec fn step_key(
        self,
        event: KeyEvent,
        selected: Option<LayoutView>,
        now: Instant,
    ) -> StepView<H> {
        let decision = self.barrier.decides(event, self.current_for(event, selected));
        let decided = self.with_key(event, selected, now);
        match decision.request {
            RequestView::Nothing => StepView::quiet(),
            RequestView::Retype => decided.step_retype(),
            RequestView::Select(tag) => decided.step_begun(tag),
        }
    }

    /// The daemon once the verdict on an event was carried out, with the copy that was made of it.
    pub open spec fn after_carried_out(
        self,
        verdict: Verdict,
        copy: Option<HeldEvent<H>>,
    ) -> StateView<H> {
        match copy {
            Some(copy) if verdict == Verdict::Hold => StateView {
                held: self.held.push(copy),
                ..self
            },
            _ => self,
        }
    }

    /// What a press of the retype key asks for: nothing where nothing is in reach and where the
    /// layout to retype in is not configured, a selection where another layout is selected, and
    /// the strokes themselves where it is the right one already.
    pub open spec fn step_retype(self) -> StepView<H> {
        match self.history.plan(self.cycle) {
            None => StepView::quiet(),
            Some(flip) => if self.current == Some(flip.target) {
                StepView::asking(TaskView::Retype { flip, switch: Switch::Unnecessary })
            } else {
                match lookup(self.layouts, flip.target) {
                    Some(layout) => StepView::asking(TaskView::SelectToRetype { flip, layout }),
                    None => StepView::quiet(),
                }
            },
        }
    }

    /// The daemon once it knows how selecting the layout to retype in went.
    pub open spec fn after_retype_selected(self, flip: FlipView, selected: bool) -> StateView<H> {
        if selected {
            StateView { current: Some(flip.target), ..self }
        } else {
            self
        }
    }

    /// What is asked for once it is known how selecting the layout to retype in went.
    pub open spec fn step_retype_selected(self, flip: FlipView, selected: bool) -> StepView<H> {
        if selected {
            StepView::asking(TaskView::Retype { flip, switch: Switch::Needed })
        } else {
            StepView::quiet()
        }
    }

    /// The plain data of the last `count` keystrokes.
    pub open spec fn covered(self, count: nat) -> Seq<CarriedEvent> {
        Seq::new(
            count,
            |i: int| self.history.entries[i + self.history.entries.len() - count].payload.carried,
        )
    }

    /// The daemon with the planned flip carried out and its strokes queued.
    pub open spec fn with_strokes(self, copies: Seq<Copies<H>>) -> StateView<H> {
        StateView {
            history: self.history.after_flip(self.cycle),
            held: self.held + strokes(self.covered(copies.len()), copies),
            ..self
        }
    }

    /// The daemon once the planned retype was carried out with these backspaces and copies.
    pub open spec fn after_retype(
        self,
        switch: Switch,
        made: Seq<Copies<H>>,
        copies: Seq<Copies<H>>,
        now: Instant,
    ) -> StateView<H> {
        if !all_made(made) {
            self
        } else if !all_made(copies) {
            StateView { history: HistoryView::nothing(), ..self.after_release() }
        } else {
            let queued = self.with_strokes(copies);
            if switch == Switch::Unnecessary || self.barrier.holding() {
                queued.after_release()
            } else {
                StateView {
                    barrier: self.barrier.after_retype(
                        self.history.plan(self.cycle)->0.target,
                        queued.held.len(),
                        now as int,
                    ),
                    switched_at: Some(now),
                    ..queued
                }
            }
        }
    }

    /// What is asked for once the planned retype was carried out: the backspaces go out, and the
    /// strokes right after them, or once the layout to retype in is confirmed.
    pub open spec fn step_retyped(
        self,
        switch: Switch,
        made: Seq<Copies<H>>,
        copies: Seq<Copies<H>>,
    ) -> StepView<H> {
        if !all_made(made) {
            StepView::quiet()
        } else if !all_made(copies) {
            StepView {
                watchdog: Watchdog::Keep,
                post: replayed(self.held),
                task: TaskView::Nothing,
            }
        } else {
            let queued = self.with_strokes(copies);
            if switch == Switch::Unnecessary {
                StepView {
                    watchdog: Watchdog::Keep,
                    post: backspaces(made) + replayed(queued.held),
                    task: TaskView::Nothing,
                }
            } else if self.barrier.holding() {
                StepView {
                    watchdog: Watchdog::Disarm,
                    post: backspaces(made) + replayed(queued.held),
                    task: TaskView::Nothing,
                }
            } else {
                StepView {
                    watchdog: Watchdog::Arm(self.hold),
                    post: backspaces(made),
                    task: TaskView::Nothing,
                }
            }
        }
    }

    /// The daemon once a layout turned out to be selected.
    pub open spec fn after_confirm(self, current: Option<Seq<char>>, now: Instant) -> StateView<H> {
        StateView {
            current,
            memory: match self.focused {
                Some(app) => self.memory.after_layout_changed(app, current),
                None => self.memory,
            },
            barrier: self.barrier.after_confirmed(current, now as int),
            ..self
        }
    }

    /// Whether a switch waits for exactly this layout.
    pub open spec fn settles(self, current: Option<Seq<char>>) -> bool {
        self.barrier.phase is Switching && self.barrier.expects(current)
    }

    /// What is asked for once a layout turned out to be selected: the switch that waited for it
    /// settles.
    pub open spec fn step_confirm(self, current: Option<Seq<char>>) -> StepView<H> {
        if self.settles(current) {
            StepView::arming(SETTLE)
        } else {
            StepView::quiet()
        }
    }

    /// The daemon with what it remembers and forgets when the keyboard moves to `app`.
    pub open spec fn with_app(self, app: Seq<char>, current: Option<Seq<char>>) -> StateView<H> {
        StateView {
            memory: self.memory.after_activated(app, current),
            history: HistoryView::nothing(),
            ..self
        }
    }

    /// The daemon once the keyboard moved to `app`.
    pub open spec fn after_activation(
        self,
        app: Seq<char>,
        current: Option<Seq<char>>,
        now: Instant,
    ) -> StateView<H> {
        let moved = self.with_app(app, current);
        match self.memory.asked_by(app, current) {
            Some(tag) => if self.barrier.holding() {
                moved
            } else {
                StateView {
                    barrier: self.barrier.after_select(tag, now as int),
                    ..moved
                }.after_begun(tag, now)
            },
            None => moved,
        }
    }

    /// What is asked for once the keyboard moved to `app`: the layout it gets, unless a switch
    /// owns the keyboard.
    pub open spec fn step_activation(
        self,
        app: Seq<char>,
        current: Option<Seq<char>>,
        now: Instant,
    ) -> StepView<H> {
        match self.memory.asked_by(app, current) {
            Some(tag) => if self.barrier.holding() {
                StepView::quiet()
            } else {
                StateView {
                    barrier: self.barrier.after_select(tag, now as int),
                    ..self.with_app(app, current)
                }.step_begun(tag)
            },
            None => StepView::quiet(),
        }
    }

    /// The daemon once the watchdog fired.
    pub open spec fn after_deadline(self, now: Instant) -> StateView<H> {
        let ticked = StateView { barrier: self.barrier.after_tick(now as int), ..self };
        match self.barrier.elapsed(now as int) {
            Elapsed::Nothing => ticked,
            Elapsed::Waiting(_) => ticked,
            Elapsed::Settled => ticked.after_release(),
            Elapsed::Unconfirmed => StateView {
                releases: Releases {
                    count: (self.releases.count + 1) as usize,
                    last: self.barrier.held() as usize,
                },
                ..ticked.after_release()
            },
        }
    }

    /// What is asked for once the watchdog fired: the held events go out unless their time is
    /// still ahead.
    pub open spec fn step_deadline(self, now: Instant) -> StepView<H> {
        match self.barrier.elapsed(now as int) {
            Elapsed::Nothing => StepView::quiet(),
            Elapsed::Waiting(left) => StepView::arming(left),
            Elapsed::Settled => self.step_release(),
            Elapsed::Unconfirmed => self.step_release(),
        }
    }
}

/// Everything the daemon knows: the barrier, the memory, the history and the queue, and what it
/// believes about the layout and the focus.
pub struct State<H> {
    barrier: Barrier,
    memory: Memory,
    layouts: OrderedMap<LayoutTag, Layout>,
    held: Held<H>,
    releases: Releases,
    hold: Duration,
    switched_at: Option<Instant>,
    focused: Option<BundleId>,
    current: Option<LayoutTag>,
    history: History<HeldEvent<H>>,
    cycle: Vec<LayoutTag>,
}

impl<H> View for State<H> {
    type V = StateView<H>;

    closed spec fn view(&self) -> StateView<H> {
        StateView {
            barrier: self.barrier@,
            memory: self.memory@,
            layouts: self.layouts@,
            held: self.held@,
            releases: self.releases,
            hold: self.hold,
            switched_at: self.switched_at,
            focused: app_text(self.focused),
            current: tag_text(self.current),
            history: self.history@,
            cycle: tags(self.cycle@),
        }
    }
}

impl<H> State<H> {
    /// Creates a daemon that knows nothing yet but its configuration.
    pub fn new(
        cycle: Vec<LayoutTag>,
        layouts: OrderedMap<LayoutTag, Layout>,
        pins: OrderedMap<BundleId, LayoutTag>,
        hold: Duration,
    ) -> (state: State<H>)
        ensures
            state@ == (StateView::<H> {
                barrier: BarrierView {
                    cycle: tags(cycle@),
                    hold: hold as int,
                    phase: Phase::Idle,
                },
                memory: MemoryView {
                    pins: table(pins@),
                    remembered: Map::empty(),
                    frontmost: None,
                },
                layouts: layouts@,
                held: Seq::empty(),
                releases: Releases { count: 0, last: 0 },
                hold,
                switched_at: None,
                focused: None,
                current: None,
                history: HistoryView::nothing(),
                cycle: tags(cycle@),
            }),
            state@.consistent(),
    {
        State {
            barrier: Barrier::new(copies_of(&cycle), hold),
            memory: Memory::new(pins),
            layouts,
            held: Held::empty(),
            releases: Releases::default(),
            hold,
            switched_at: None,
            focused: None,
            current: None,
            history: History::new(),
            cycle,
        }
    }

    /// Takes a key event from the tap, with the copy that was captured of it where the history
    /// records it and with the layout selected right now, and returns the verdict on it.
    pub fn on_key(
        &mut self,
        event: KeyEvent,
        captured: Option<HeldEvent<H>>,
        selected: Option<&Layout>,
        now: Instant,
    ) -> (decided: (Verdict, Step<H>))
        requires
            old(self)@.barrier.switches_to(
                event,
                old(self)@.current_for(event, layout_text(selected)),
            ) is Some ==> old(self)@.in_time(now),
            is_ordinary(event) && old(self)@.barrier.holding() ==> old(self)@.barrier.held()
                < usize::MAX,
        ensures
            decided.0 == old(self)@.barrier.decides(
                event,
                old(self)@.current_for(event, layout_text(selected)),
            ).verdict,
            decided.1@ == old(self)@.step_key(event, layout_text(selected), now),
            final(self)@ == old(self)@.after_key(event, captured, layout_text(selected), now),
    {
        let current = self.current_for(event.keycode, selected);
        let Decision { verdict, request } = self.barrier.on_key(event, current, now);
        match request {
            Request::Nothing => {
                match verdict {
                    Verdict::Pass => self.on_typed(event, captured),
                    Verdict::Hold => self.on_typed(event, captured),
                    Verdict::Swallow => {},
                }
                (verdict, Step::quiet())
            },
            Request::Retype => (verdict, self.on_retype()),
            Request::Select(tag) => (verdict, self.begin(tag, now)),
        }
    }

    /// Keeps the history in step with an event that passes or waits, where `captured` is the copy
    /// that was made of it.
    pub fn on_typed(&mut self, event: KeyEvent, captured: Option<HeldEvent<H>>)
        ensures
            final(self)@ == old(self)@.after_typed(event, captured),
    {
        match action(event) {
            Action::Ignore => {},
            Action::Erase => self.history.erase(),
            Action::Clear => self.history.clear(),
            Action::Record(kind) => {
                let Some(captured) = captured else {
                    self.history.clear();
                    return;
                };
                let tag = match &self.current {
                    Some(current) => Some(current.clone()),
                    None => None,
                };
                self.history.record(kind, tag, captured);
            },
        }
    }

    /// Carries the verdict out on the event it was passed for, given the copy that was made of it
    /// where it has to wait.
    pub fn carry_out(&mut self, verdict: Verdict, copy: Option<HeldEvent<H>>) -> (answer: Answer)
        ensures
            final(self)@ == old(self)@.after_carried_out(verdict, copy),
            answer == answered(verdict, copy is Some),
    {
        self.held.carry_out(verdict, copy)
    }

    /// Takes a press of the retype key and returns what has to be done for it.
    pub fn on_retype(&self) -> (step: Step<H>)
        ensures
            step@ == self@.step_retype(),
    {
        let Some(flip) = self.planned() else {
            return Step::quiet();
        };
        if let Some(current) = &self.current {
            if current.same(&flip.target) {
                return Step::asking(Task::Retype { flip, switch: Switch::Unnecessary });
            }
        }
        let Some(layout) = self.layouts.get(&flip.target) else {
            return Step::quiet();
        };
        let layout = layout.clone();
        Step::asking(Task::SelectToRetype { flip, layout })
    }

    /// Learns how selecting the layout to retype in went.
    pub fn on_retype_selected(&mut self, flip: Flip, selected: bool) -> (step: Step<H>)
        ensures
            step@ == old(self)@.step_retype_selected(flip@, selected),
            final(self)@ == old(self)@.after_retype_selected(flip@, selected),
    {
        if !selected {
            return Step::quiet();
        }
        self.current = Some(flip.target.clone());
        Step::asking(Task::Retype { flip, switch: Switch::Needed })
    }

    /// Returns what a press of the retype key would retype.
    pub fn planned(&self) -> (flip: Option<Flip>)
        ensures
            flip_text(flip) == self@.history.plan(self@.cycle),
    {
        self.history.planned(self.cycle.as_slice())
    }

    /// Returns the keystrokes the planned retype covers, each of which is copied twice for it.
    pub fn strokes(&self, count: usize) -> (events: Vec<&HeldEvent<H>>)
        ensures
            events@.len() == if count <= self@.history.entries.len() {
                count as nat
            } else {
                self@.history.entries.len()
            },
            forall|i: int|
                0 <= i < events@.len() ==> *(#[trigger] events@[i]) == self@.history.entries[i
                    + self@.history.entries.len() - events@.len()].payload,
    {
        self.history.last(count)
    }

    /// Carries the planned retype out, given the backspaces that were made for it and the copies
    /// of the keystrokes it covers.
    ///
    /// Nothing is deleted unless every backspace and every copy was made, so the text never loses
    /// characters no replacement comes for.
    pub fn retype(
        &mut self,
        switch: Switch,
        made: Vec<Copies<H>>,
        copies: Vec<Copies<H>>,
        now: Instant,
    ) -> (step: Step<H>)
        requires
            switch == Switch::Needed && !old(self)@.barrier.holding() ==> old(self)@.in_time(now),
            old(self)@.history.plan(old(self)@.cycle) matches Some(flip) && flip.count
                == made@.len() && flip.count == copies@.len(),
        ensures
            step@ == old(self)@.step_retyped(switch, made@, copies@),
            final(self)@ == old(self)@.after_retype(switch, made@, copies@, now),
    {
        let ghost before = self@;
        let count: usize = made.len();
        let Some(deletions) = Deletions::built(count, made) else {
            return Step::quiet();
        };
        let Some(flip) = self.flip() else {
            return Step::quiet();
        };
        proof {
            a_flip_never_reaches_past_its_run(before.history, before.cycle);
            a_flip_keeps_the_keystrokes(before.history, before.cycle);
            assert(self@.covered(flip.count as nat) =~= before.covered(flip.count as nat));
        }
        if let Kept::No = self.push_strokes(flip.count, copies) {
            self.history.clear();
            let post = self.held.replay();
            return Step { watchdog: Watchdog::Keep, post, task: Task::Nothing };
        }
        let mut post = deletions.post();
        match switch {
            Switch::Unnecessary => {
                let mut replayed = self.held.replay();
                post.append(&mut replayed);
                Step { watchdog: Watchdog::Keep, post, task: Task::Nothing }
            },
            Switch::Needed => {
                let waiting: usize = self.held.len();
                if !self.barrier.on_retype(flip.target, waiting, now) {
                    let mut replayed = self.held.replay();
                    post.append(&mut replayed);
                    return Step { watchdog: Watchdog::Disarm, post, task: Task::Nothing };
                }
                self.switched_at = Some(now);
                Step { watchdog: Watchdog::Arm(self.hold), post, task: Task::Nothing }
            },
        }
    }

    /// Turns what was typed over to the layout it is retyped in, and returns what that covers.
    pub fn flip(&mut self) -> (flip: Option<Flip>)
        ensures
            flip_text(flip) == old(self)@.history.plan(old(self)@.cycle),
            final(self)@ == (StateView {
                history: old(self)@.history.after_flip(old(self)@.cycle),
                ..old(self)@
            }),
    {
        self.history.flip(self.cycle.as_slice())
    }

    fn push_strokes(&mut self, count: usize, copies: Vec<Copies<H>>) -> (kept: Kept)
        requires
            count == copies@.len(),
            count <= old(self)@.history.entries.len(),
        ensures
            kept is Yes <==> all_made(copies@),
            final(self)@ == (StateView {
                held: old(self)@.held + if all_made(copies@) {
                    strokes(old(self)@.covered(count as nat), copies@)
                } else {
                    Seq::empty()
                },
                ..old(self)@
            }),
    {
        let events = self.history.last(count);
        assert(carried_by(events@) =~= self@.covered(count as nat));
        self.held.push_strokes(&events, copies)
    }

    /// Learns that the selected layout changed.
    pub fn on_confirmation(&mut self, selected: Option<&Layout>, now: Instant) -> (step: Step<H>)
        requires
            old(self)@.settles(old(self)@.tag_of(layout_text(selected))) ==> now + SETTLE
                <= u64::MAX,
        ensures
            step@ == old(self)@.step_confirm(old(self)@.tag_of(layout_text(selected))),
            final(self)@ == old(self)@.after_confirm(
                old(self)@.tag_of(layout_text(selected)),
                now,
            ),
    {
        let current = self.current_tag(selected);
        self.confirm(current, now)
    }

    /// Takes `current` for the layout that is selected now.
    pub fn confirm(&mut self, current: Option<LayoutTag>, now: Instant) -> (step: Step<H>)
        requires
            old(self)@.settles(tag_text(current)) ==> now + SETTLE <= u64::MAX,
        ensures
            step@ == old(self)@.step_confirm(tag_text(current)),
            final(self)@ == old(self)@.after_confirm(tag_text(current), now),
    {
        self.current = copied(&current);
        self.remember(copied(&current));
        match self.barrier.confirmed(current, now) {
            Confirmed::Nothing => Step::quiet(),
            Confirmed::Settling => Step::arming(SETTLE),
        }
    }

    /// Learns that the keyboard moved to `app`, with the layout selected right now.
    pub fn on_activation(
        &mut self,
        app: BundleId,
        selected: Option<&Layout>,
        now: Instant,
    ) -> (step: Step<H>)
        requires
            old(self)@.memory.asked_by(app@, old(self)@.tag_of(layout_text(selected))) is Some
                && !old(self)@.barrier.holding() ==> old(self)@.in_time(now),
        ensures
            step@ == old(self)@.step_activation(
                app@,
                old(self)@.tag_of(layout_text(selected)),
                now,
            ),
            final(self)@ == old(self)@.after_activation(
                app@,
                old(self)@.tag_of(layout_text(selected)),
                now,
            ),
    {
        self.forget_typed();
        let current = self.current_tag(selected);
        let Some(tag) = self.memory.on_activated(app, current) else {
            return Step::quiet();
        };
        if !self.barrier.on_select(tag.clone(), now) {
            return Step::quiet();
        }
        self.begin(tag, now)
    }

    /// Forgets what was typed.
    pub fn forget_typed(&mut self)
        ensures
            final(self)@ == (StateView { history: HistoryView::nothing(), ..old(self)@ }),
    {
        self.history.clear();
    }

    /// Takes the selected layout for the one the daemon starts with.
    pub fn seed_current(&mut self, selected: Option<&Layout>)
        ensures
            final(self)@ == (StateView {
                current: old(self)@.tag_of(layout_text(selected)),
                ..old(self)@
            }),
    {
        self.current = self.current_tag(selected);
    }

    /// Takes the application the keyboard goes to for the one the daemon starts with.
    pub fn seed_frontmost(&mut self, app: Option<BundleId>)
        ensures
            final(self)@ == match app {
                Some(app) => StateView {
                    focused: Some(app@),
                    memory: MemoryView { frontmost: Some(app@), ..old(self)@.memory },
                    ..old(self)@
                },
                None => old(self)@,
            },
    {
        let Some(app) = app else {
            return;
        };
        self.focused = Some(app.clone());
        self.memory.seed(app);
    }

    /// Takes a reading of where the keyboard goes, and returns the application it moved to, if it
    /// moved: that one is handed to [`State::on_activation`].
    pub fn on_focus_poll(&mut self, reading: Option<BundleId>) -> (app: Option<BundleId>)
        ensures
            app_text(app) == moved_to(old(self)@.focused, app_text(reading)),
            final(self)@ == (StateView {
                focused: match moved_to(old(self)@.focused, app_text(reading)) {
                    Some(app) => Some(app),
                    None => old(self)@.focused,
                },
                ..old(self)@
            }),
    {
        let Some(app) = moved(self.focused.as_ref(), reading) else {
            return None;
        };
        self.focused = Some(app.clone());
        Some(app)
    }

    fn remember(&mut self, current: Option<LayoutTag>)
        ensures
            final(self)@ == (StateView {
                memory: match old(self)@.focused {
                    Some(app) => old(self)@.memory.after_layout_changed(app, tag_text(current)),
                    None => old(self)@.memory,
                },
                ..old(self)@
            }),
    {
        let app = match &self.focused {
            Some(app) => app.clone(),
            None => {
                return;
            },
        };
        self.memory.on_layout_changed(app, current);
    }

    /// Learns that the watchdog fired.
    pub fn on_deadline(&mut self, now: Instant) -> (step: Step<H>)
        requires
            old(self)@.barrier.elapsed(now as int) == Elapsed::Unconfirmed ==> old(
                self,
            )@.releases.count < usize::MAX,
        ensures
            step@ == old(self)@.step_deadline(now),
            final(self)@ == old(self)@.after_deadline(now),
    {
        let waiting: usize = self.barrier.held();
        match self.barrier.tick(now) {
            Elapsed::Nothing => Step::quiet(),
            Elapsed::Waiting(left) => Step::arming(left),
            Elapsed::Settled => self.release(),
            Elapsed::Unconfirmed => {
                self.releases = Releases { count: self.releases.count + 1, last: waiting };
                self.release()
            },
        }
    }

    /// Learns how selecting the layout under `tag` went.
    pub fn on_selected(&mut self, tag: LayoutTag, selected: bool) -> (step: Step<H>)
        ensures
            step@ == old(self)@.step_selected(selected),
            final(self)@ == old(self)@.after_selected(tag@, selected),
    {
        if selected {
            self.current = Some(tag);
            return Step::quiet();
        }
        self.selection_failed()
    }

    fn begin(&mut self, tag: LayoutTag, now: Instant) -> (step: Step<H>)
        ensures
            step@ == old(self)@.step_begun(tag@),
            final(self)@ == old(self)@.after_begun(tag@, now),
    {
        self.switched_at = Some(now);
        let Some(layout) = self.layouts.get(&tag) else {
            let failed = self.selection_failed();
            return match failed.watchdog {
                Watchdog::Keep => Step::arming(self.hold),
                _ => failed,
            };
        };
        let layout = layout.clone();
        Step {
            watchdog: Watchdog::Arm(self.hold),
            post: Vec::new(),
            task: Task::Select { tag, layout },
        }
    }

    fn selection_failed(&mut self) -> (step: Step<H>)
        ensures
            step@ == old(self)@.step_selected(false),
            forall|tag: Seq<char>| final(self)@ == #[trigger] old(self)@.after_selected(tag, false),
    {
        if !self.barrier.select_failed() {
            return Step::quiet();
        }
        self.release()
    }

    fn release(&mut self) -> (step: Step<H>)
        ensures
            step@ == old(self)@.step_release(),
            final(self)@ == old(self)@.after_release(),
    {
        Step { watchdog: Watchdog::Disarm, post: self.held.replay(), task: Task::Nothing }
    }

    /// Lets the events that are still held go when the daemon stops.
    pub fn release_on_stop(&mut self) -> (step: Step<H>)
        ensures
            step@ == if old(self)@.held.len() == 0 {
                StepView::quiet()
            } else {
                old(self)@.step_release()
            },
            final(self)@ == old(self)@.after_release(),
    {
        if self.held.is_empty() {
            return Step::quiet();
        }
        self.release()
    }

    /// Returns how often the watchdog had to release held events since the daemon started.
    pub fn releases(&self) -> (releases: Releases)
        ensures
            releases == self@.releases,
    {
        self.releases
    }

    /// Returns how long ago the last switch started, in whole milliseconds.
    pub fn since_switch_ms(&self, now: Instant) -> (elapsed: u64)
        ensures
            elapsed == match self@.switched_at {
                Some(switched_at) if switched_at <= now => (now - switched_at) / (
                MILLISECOND as int),
                _ => 0,
            },
    {
        let Some(switched_at) = self.switched_at else {
            return 0;
        };
        if now < switched_at {
            return 0;
        }
        (now - switched_at) / MILLISECOND
    }

    /// Returns how many events the barrier counts as waiting.
    pub fn held_count(&self) -> (held: usize)
        ensures
            held == self@.barrier.held(),
    {
        self.barrier.held()
    }

    /// Returns whether a switch owns the keyboard.
    pub fn switching(&self) -> (switching: bool)
        ensures
            switching <==> self@.barrier.holding(),
    {
        self.barrier.owns_window()
    }

    /// Returns the layout whose confirmation is waited for.
    pub fn awaited(&self) -> (awaited: Option<&LayoutTag>)
        ensures
            self@.barrier.awaited() == match awaited {
                Some(awaited) => Some(awaited@),
                None => None,
            },
    {
        self.barrier.awaited()
    }

    /// Returns the queue of the events that are held back.
    pub fn held(&self) -> (held: &Held<H>)
        ensures
            held@ == self@.held,
    {
        &self.held
    }

    /// Returns what was typed.
    pub fn history(&self) -> (history: &History<HeldEvent<H>>)
        ensures
            history@ == self@.history,
    {
        &self.history
    }

    /// Returns the layout the daemon believes is selected.
    pub fn current(&self) -> (current: Option<&LayoutTag>)
        ensures
            self@.current == match current {
                Some(current) => Some(current@),
                None => None,
            },
    {
        self.current.as_ref()
    }

    fn current_for(&self, keycode: u16, selected: Option<&Layout>) -> (current: Option<LayoutTag>)
        ensures
            tag_text(current) == if keycode == SWITCH_KEYCODE {
                self@.tag_of(layout_text(selected))
            } else {
                None
            },
    {
        if keycode != SWITCH_KEYCODE {
            return None;
        }
        self.current_tag(selected)
    }

    /// Returns the tag the selected layout stands under.
    pub fn current_tag(&self, selected: Option<&Layout>) -> (current: Option<LayoutTag>)
        ensures
            tag_text(current) == self@.tag_of(layout_text(selected)),
    {
        let Some(layout) = selected else {
            return None;
        };
        tag_named(&self.layouts, layout.name.as_str())
    }
}

fn copied(tag: &Option<LayoutTag>) -> (copy: Option<LayoutTag>)
    ensures
        tag_text(copy) == tag_text(*tag),
{
    match tag {
        Some(tag) => Some(tag.clone()),
        None => None,
    }
}

impl<H> StateView<H> {
    /// Whether what the parts know of each other agrees: no more events are held back than the
    /// barrier counts, and the barrier waits and walks as the daemon is configured to.
    pub open spec fn consistent(self) -> bool {
        &&& self.held.len() <= self.barrier.held()
        &&& self.barrier.hold == self.hold
        &&& self.barrier.cycle == self.cycle
    }

    /// Whether the watchdog fires at the very moment whatever the barrier waits for is due.
    pub open spec fn watched(self, fires_at: Option<int>) -> bool {
        self.barrier.phase is Idle || fires_at == self.barrier.deadline()
    }
}

/// When the watchdog fires once a step was carried out.
pub open spec fn fires_after<H>(fires_at: Option<int>, step: StepView<H>, now: Instant) -> Option<
    int,
> {
    match step.watchdog {
        Watchdog::Keep => fires_at,
        Watchdog::Arm(after) => Some(now + after),
        Watchdog::Disarm => None,
    }
}

/// Nothing is ever held back outside a switch: where the barrier does not own the keyboard, the
/// queue is empty.
pub proof fn nothing_is_held_outside_a_switch<H>(state: StateView<H>)
    requires
        state.consistent(),
        !state.barrier.holding(),
    ensures
        state.held.len() == 0,
{
}

/// A key keeps the daemon consistent, with its verdict carried out or not.
pub proof fn a_key_keeps_the_daemon_consistent<H>(
    state: StateView<H>,
    event: KeyEvent,
    captured: Option<HeldEvent<H>>,
    selected: Option<LayoutView>,
    copy: Option<HeldEvent<H>>,
    now: Instant,
)
    requires
        state.consistent(),
    ensures
        ({
            let after = state.after_key(event, captured, selected, now);
            let verdict = state.barrier.decides(
                event,
                state.current_for(event, selected),
            ).verdict;
            &&& after.consistent()
            &&& after.after_carried_out(verdict, copy).consistent()
        }),
{
}

/// Everything but a key keeps the daemon consistent too: a select that was made or refused, a
/// retype, a confirmation, the keyboard moving, and the watchdog.
pub proof fn everything_else_keeps_the_daemon_consistent<H>(
    state: StateView<H>,
    app: Seq<char>,
    tag: Seq<char>,
    flip: FlipView,
    selected: bool,
    current: Option<Seq<char>>,
    switch: Switch,
    made: Seq<Copies<H>>,
    copies: Seq<Copies<H>>,
    now: Instant,
)
    requires
        state.consistent(),
    ensures
        state.after_selected(tag, selected).consistent(),
        state.after_retype_selected(flip, selected).consistent(),
        state.after_retype(switch, made, copies, now).consistent(),
        state.after_confirm(current, now).consistent(),
        state.after_activation(app, current, now).consistent(),
        state.after_deadline(now).consistent(),
        state.after_release().consistent(),
{
}

/// The keyboard never hangs: whenever the barrier waits for something, the watchdog fires at the
/// moment that is due. A key, a select, a confirmation and the keyboard moving keep it so.
pub proof fn the_watchdog_fires_when_something_is_due<H>(
    state: StateView<H>,
    fires_at: Option<int>,
    event: KeyEvent,
    captured: Option<HeldEvent<H>>,
    layout: Option<LayoutView>,
    app: Seq<char>,
    tag: Seq<char>,
    selected: bool,
    current: Option<Seq<char>>,
    now: Instant,
)
    requires
        state.consistent(),
        state.watched(fires_at),
    ensures
        state.after_key(event, captured, layout, now).watched(
            fires_after(fires_at, state.step_key(event, layout, now), now),
        ),
        state.after_selected(tag, selected).watched(
            fires_after(fires_at, state.step_selected(selected), now),
        ),
        state.after_confirm(current, now).watched(
            fires_after(fires_at, state.step_confirm(current), now),
        ),
        state.after_activation(app, current, now).watched(
            fires_after(fires_at, state.step_activation(app, current, now), now),
        ),
{
}

/// When the watchdog fired it is set again for whatever is still ahead, and otherwise nothing
/// waits any more: what was held back goes out.
pub proof fn a_watchdog_that_fired_leaves_nothing_behind<H>(state: StateView<H>, now: Instant)
    requires
        state.consistent(),
        state.barrier.deadline() matches Some(deadline) ==> deadline <= u64::MAX,
    ensures
        state.after_deadline(now).watched(fires_after(None, state.step_deadline(now), now)),
        (state.barrier.deadline() matches Some(deadline) && now < deadline)
            || state.after_deadline(now).barrier.phase is Idle,
        state.after_deadline(now).barrier.phase is Idle ==> {
            &&& state.after_deadline(now).held.len() == 0
            &&& state.step_deadline(now).post == replayed(state.held)
        },
{
    assert(state.held.len() == 0 ==> replayed(state.held) =~= Seq::empty());
}

/// A retype is watched like any other switch, as it is only ever planned while no switch owns the
/// keyboard.
pub proof fn a_retype_is_watched<H>(
    state: StateView<H>,
    fires_at: Option<int>,
    switch: Switch,
    made: Seq<Copies<H>>,
    copies: Seq<Copies<H>>,
    now: Instant,
)
    requires
        state.consistent(),
        state.watched(fires_at),
        !state.barrier.holding(),
    ensures
        state.after_retype(switch, made, copies, now).watched(
            fires_after(fires_at, state.step_retyped(switch, made, copies), now),
        ),
{
}

/// A retype is only ever asked for while no switch owns the keyboard.
pub proof fn a_retype_is_only_planned_outside_a_switch<H>(
    state: StateView<H>,
    event: KeyEvent,
    selected: Option<LayoutView>,
    now: Instant,
)
    requires
        state.step_key(event, selected, now).task is Retype || state.step_key(
            event,
            selected,
            now,
        ).task is SelectToRetype,
    ensures
        !state.barrier.holding(),
        state.with_key(event, selected, now) == state,
{
}

/// One key as the tap meets it, with everything that is read and made for it.
pub struct Typed<H> {
    /// The key.
    pub event: KeyEvent,
    /// The copy the history keeps, if it could be made.
    pub captured: Option<HeldEvent<H>>,
    /// The layout selected right then.
    pub selected: Option<LayoutView>,
    /// The copy that waits, if it could be made.
    pub copy: Option<HeldEvent<H>>,
    /// When the tap handed it over.
    pub now: Instant,
}

/// One thing that happens while a switch runs.
pub enum Happening<H> {
    /// The tap hands over an event, and the verdict on it is carried out.
    Key(Typed<H>),
    /// A layout turns out to be selected.
    Confirmed {
        /// The tag it stands under, if any.
        current: Option<Seq<char>>,
        /// When.
        now: Instant,
    },
    /// The layout that was asked for is selected.
    Selected {
        /// The tag it stands under.
        tag: Seq<char>,
    },
    /// The keyboard moves to another application.
    Moved {
        /// The application.
        app: Seq<char>,
        /// The tag of the layout selected right then, if any.
        current: Option<Seq<char>>,
        /// When.
        now: Instant,
    },
}

impl<H> StateView<H> {
    /// The daemon once this happened.
    pub open spec fn after_one(self, happening: Happening<H>) -> StateView<H> {
        match happening {
            Happening::Key(key) => {
                let verdict = self.barrier.decides(
                    key.event,
                    self.current_for(key.event, key.selected),
                ).verdict;
                self.after_key(
                    key.event,
                    key.captured,
                    key.selected,
                    key.now,
                ).after_carried_out(verdict, key.copy)
            },
            Happening::Confirmed { current, now } => self.after_confirm(current, now),
            Happening::Selected { tag } => self.after_selected(tag, true),
            Happening::Moved { app, current, now } => self.after_activation(app, current, now),
        }
    }
}

/// The daemon once all of this happened, one after the other.
pub open spec fn after_all<H>(state: StateView<H>, run: Seq<Happening<H>>) -> StateView<H>
    decreases run.len(),
{
    if run.len() == 0 {
        state
    } else {
        after_all(state, run.drop_last()).after_one(run.last())
    }
}

/// Whether this is a key that waits while a switch runs: neither a signal key nor a click, and one
/// a copy could be made of.
pub open spec fn waits<H>() -> spec_fn(Happening<H>) -> bool {
    |happening: Happening<H>|
        happening matches Happening::Key(key) && is_ordinary(key.event) && key.copy is Some
}

/// The copies of the keys that wait, in the order in which they were typed.
pub open spec fn copies_kept<H>(run: Seq<Happening<H>>) -> Seq<HeldEvent<H>> {
    run.filter(waits()).map_values(|happening: Happening<H>| happening->Key_0.copy->0)
}

/// No key is lost: one that is not a signal key either goes on to whatever is downstream or waits
/// at the end of the queue.
pub proof fn no_key_is_lost<H>(
    state: StateView<H>,
    event: KeyEvent,
    captured: Option<HeldEvent<H>>,
    selected: Option<LayoutView>,
    copy: Option<HeldEvent<H>>,
    now: Instant,
)
    requires
        !crate::barrier::is_signal(event),
    ensures
        ({
            let verdict = state.barrier.decides(
                event,
                state.current_for(event, selected),
            ).verdict;
            let after = state.after_key(event, captured, selected, now).after_carried_out(
                verdict,
                copy,
            );
            if answered(verdict, copy is Some) is PassOn {
                after.held == state.held
            } else {
                copy is Some && after.held == state.held.push(copy->0)
            }
        }),
{
}

/// A click, a key that moves the caret and a chord with Command or Control forget what was typed,
/// and so does a keystroke typed in a layout no tag names or one that could not be captured.
pub proof fn what_the_history_cannot_follow_is_forgotten<H>(
    state: StateView<H>,
    event: KeyEvent,
    captured: Option<HeldEvent<H>>,
)
    requires
        ({
            ||| event.kind == EventKind::MouseDown
            ||| event.kind == EventKind::Down && moves_the_caret(event.keycode)
            ||| event.kind == EventKind::Down && event.flags & (COMMAND | CONTROL) != 0
            ||| asked_of_history(event) is Record && (state.current is None || captured is None)
        }),
    ensures
        state.after_typed(event, captured).history == HistoryView::<HeldEvent<H>>::nothing(),
{
}

proof fn lemma_copies_kept_grow<H>(run: Seq<Happening<H>>)
    requires
        run.len() > 0,
    ensures
        copies_kept(run) == if waits::<H>()(run.last()) {
            copies_kept(run.drop_last()).push(run.last()->Key_0.copy->0)
        } else {
            copies_kept(run.drop_last())
        },
{
    reveal(Seq::filter);
    let kept = run.drop_last().filter(waits());
    if waits::<H>()(run.last()) {
        assert(run.filter(waits()) == kept.push(run.last()));
        assert(copies_kept(run) =~= copies_kept(run.drop_last()).push(
            run.last()->Key_0.copy->0,
        ));
    }
}

/// Whatever happens while a switch runs, the keys typed into it are held back in the order they
/// were typed, behind whatever was waiting already: signal keys, clicks, the confirmation and the
/// keyboard moving neither add to them nor disturb them. Nothing but a confirmation moves the
/// deadline, and once it passed all of them go out, each of them once.
pub proof fn keys_typed_into_a_switch_go_out_in_order<H>(
    state: StateView<H>,
    run: Seq<Happening<H>>,
    now: Instant,
)
    requires
        state.barrier.holding(),
    ensures
        after_all(state, run).held == state.held + copies_kept(run),
        after_all(state, run).barrier.holding(),
        (forall|i: int| 0 <= i < run.len() ==> !(#[trigger] run[i] is Confirmed)) ==> after_all(
            state,
            run,
        ).barrier.deadline() == state.barrier.deadline(),
        now >= after_all(state, run).barrier.deadline()->0 ==> {
            &&& after_all(state, run).step_deadline(now).post == replayed(
                state.held + copies_kept(run),
            )
            &&& after_all(state, run).after_deadline(now).held.len() == 0
            &&& after_all(state, run).after_deadline(now).barrier.phase is Idle
        },
    decreases run.len(),
{
    if run.len() > 0 {
        let before = run.drop_last();
        keys_typed_into_a_switch_go_out_in_order(state, before, now);
        lemma_copies_kept_grow(run);
        if forall|i: int| 0 <= i < run.len() ==> !(#[trigger] run[i] is Confirmed) {
            assert forall|i: int| 0 <= i < before.len() implies !(
            #[trigger] before[i] is Confirmed) by {
                assert(before[i] == run[i]);
            }
            assert(!(run[run.len() - 1] is Confirmed));
        }
        assert(after_all(state, run).held =~= state.held + copies_kept(run));
    } else {
        reveal(Seq::filter);
        assert(state.held + copies_kept(run) =~= state.held);
    }
}

/// Everything typed after a press of the switch key, up to the moment the switch is over, goes out
/// in the order it was typed and nothing else does.
pub proof fn everything_typed_after_the_switch_key_goes_out_in_order<H>(
    state: StateView<H>,
    press: Typed<H>,
    run: Seq<Happening<H>>,
    now: Instant,
)
    requires
        state.consistent(),
        !state.barrier.holding(),
        state.cycle.len() > 0,
        forall|tag: Seq<char>| #[trigger]
            state.cycle.contains(tag) ==> lookup(state.layouts, tag) is Some,
        crate::barrier::is_press(press.event, SWITCH_KEYCODE),
    ensures
        ({
            let after = after_all(state.after_one(Happening::Key(press)), run);
            &&& after.barrier.holding()
            &&& after.held == copies_kept(run)
            &&& now >= after.barrier.deadline()->0 ==> after.step_deadline(now).post == replayed(
                copies_kept(run),
            )
        }),
{
    let switching = state.after_one(Happening::Key(press));
    a_switch_always_has_a_layout_to_select(state, press.event, press.selected, press.now);
    crate::cycle::the_next_layout_is_one_of_the_cycle(
        state.barrier.cycle,
        state.barrier.walks_from(state.current_for(press.event, press.selected)),
    );
    keys_typed_into_a_switch_go_out_in_order(switching, run, now);
    assert(switching.held + copies_kept(run) =~= copies_kept(run));
}

/// A confirmation and the keyboard moving leave what is held back as it is.
pub proof fn only_keys_and_the_deadline_touch_the_queue<H>(
    state: StateView<H>,
    app: Seq<char>,
    current: Option<Seq<char>>,
    now: Instant,
)
    ensures
        state.after_confirm(current, now).held == state.held,
        state.barrier.holding() ==> state.after_activation(app, current, now).held == state.held,
{
}

/// Where the layout to retype in cannot be selected, nothing is deleted and nothing is replayed,
/// and the history stays as it was.
pub proof fn a_refused_select_leaves_the_text_alone<H>(state: StateView<H>, flip: FlipView)
    ensures
        state.step_retype_selected(flip, false) == StepView::<H>::quiet(),
        state.after_retype_selected(flip, false) == state,
        (state.history.plan(state.cycle) matches Some(planned) && state.current != Some(
            planned.target,
        ) && lookup(state.layouts, planned.target) is None) ==> state.step_retype()
            == StepView::<H>::quiet(),
{
}

/// A retype deletes nothing unless every backspace and every copy was made.
pub proof fn nothing_is_deleted_without_its_replacement<H>(
    state: StateView<H>,
    switch: Switch,
    made: Seq<Copies<H>>,
    copies: Seq<Copies<H>>,
)
    requires
        !all_made(made) || !all_made(copies),
    ensures
        state.step_retyped(switch, made, copies).post == if all_made(made) {
            replayed(state.held)
        } else {
            Seq::empty()
        },
{
}

/// A retype deletes exactly as many characters as it covers keystrokes, and queues each of those
/// keystrokes once, in the order they were typed.
pub proof fn a_retype_replaces_what_it_deletes<H>(
    state: StateView<H>,
    switch: Switch,
    made: Seq<Copies<H>>,
    copies: Seq<Copies<H>>,
    now: Instant,
)
    requires
        state.consistent(),
        !state.barrier.holding(),
        all_made(made),
        all_made(copies),
        state.history.plan(state.cycle) matches Some(flip) && flip.count == made.len()
            && flip.count == copies.len(),
    ensures
        ({
            let count = made.len();
            let step = state.step_retyped(switch, made, copies);
            let queued = strokes(state.covered(count), copies);
            &&& backspaces(made).len() == 2 * count
            &&& queued.len() == 2 * count
            &&& step.post == if switch == Switch::Unnecessary {
                backspaces(made) + replayed(queued)
            } else {
                backspaces(made)
            }
            &&& switch == Switch::Needed ==> state.after_retype(switch, made, copies, now).held
                == queued
            &&& switch == Switch::Needed ==> state.after_retype(
                switch,
                made,
                copies,
                now,
            ).barrier.expects(Some(state.history.plan(state.cycle)->0.target))
        }),
{
    let count = made.len();
    crate::macos::tap::every_deletion_is_one_backspace(made);
    crate::macos::tap::every_stroke_goes_down_and_comes_up(state.covered(count), copies);
    assert(state.held + strokes(state.covered(count), copies) =~= strokes(
        state.covered(count),
        copies,
    ));
}

/// A word whose layout to retype in is selected already is retyped without selecting anything.
pub proof fn a_word_typed_before_a_switch_is_retyped_as_it_is<H>(
    state: StateView<H>,
    flip: FlipView,
)
    requires
        state.history.plan(state.cycle) == Some(flip),
        state.current == Some(flip.target),
    ensures
        state.step_retype() == StepView::<H>::asking(
            TaskView::Retype { flip, switch: Switch::Unnecessary },
        ),
{
}

/// The keyboard moving to another application forgets what was typed, and never selects anything
/// while a switch owns the keyboard.
pub proof fn the_keyboard_moving_forgets_what_was_typed<H>(
    state: StateView<H>,
    app: Seq<char>,
    current: Option<Seq<char>>,
    now: Instant,
)
    ensures
        state.after_activation(app, current, now).history == HistoryView::<HeldEvent<H>>::nothing(),
        state.barrier.holding() ==> state.step_activation(app, current, now)
            == StepView::<H>::quiet(),
        state.barrier.holding() ==> state.after_activation(app, current, now).barrier
            == state.barrier,
{
}

/// Where every tag of the cycle has a layout, a press of the switch key outside a switch always
/// comes to a layout to select.
pub proof fn a_switch_always_has_a_layout_to_select<H>(
    state: StateView<H>,
    event: KeyEvent,
    selected: Option<LayoutView>,
    now: Instant,
)
    requires
        state.consistent(),
        !state.barrier.holding(),
        state.cycle.len() > 0,
        forall|tag: Seq<char>| #[trigger]
            state.cycle.contains(tag) ==> lookup(state.layouts, tag) is Some,
        crate::barrier::is_press(event, SWITCH_KEYCODE),
    ensures
        state.step_key(event, selected, now).task is Select,
        state.step_key(event, selected, now).watchdog == Watchdog::Arm(state.hold),
{
    crate::cycle::the_next_layout_is_one_of_the_cycle(
        state.barrier.cycle,
        state.barrier.walks_from(state.current_for(event, selected)),
    );
}

/// The tag a resolved configuration answers with for the name of a layout is the tag it gives that
/// layout: the two lookups undo each other.
pub proof fn a_resolved_layout_answers_with_its_tag(
    names: Seq<(Seq<char>, Seq<char>)>,
    layouts: Seq<LayoutView>,
    i: int,
)
    requires
        forall|name: Seq<char>| !crate::macos::tis::is_shared(names, name),
        crate::macos::tis::missing_from(names, layouts).len() == 0,
        0 <= i < names.len(),
    ensures
        tag_under(crate::macos::tis::resolved_to(names, layouts), names[i].1) == Some(names[i].0),
{
    let resolved = crate::macos::tis::resolved_to(names, layouts);
    crate::macos::tis::every_resolved_tag_carries_the_layout_it_names(names, layouts, i);
    assert forall|j: int| 0 <= j < resolved.len() && j != i implies (#[trigger] resolved[j]).1.name
        != names[i].1 by {
        crate::macos::tis::every_resolved_tag_carries_the_layout_it_names(names, layouts, j);
        if names[j].1 == names[i].1 {
            crate::macos::tis::lemma_two_entries_share(names, i, j);
        }
    }
    assert(is_tag_named(resolved, names[i].1, i));
}

/// A layout answers with the tag of the first entry that carries its name, and no tag where no
/// entry does; no layout at all has no tag.
pub proof fn a_layout_answers_with_the_first_tag_of_its_name<H>(
    state: StateView<H>,
    layout: LayoutView,
    i: int,
)
    requires
        0 <= i < state.layouts.len(),
        state.layouts[i].1.name == layout.name,
        forall|j: int| 0 <= j < i ==> (#[trigger] state.layouts[j]).1.name != layout.name,
    ensures
        state.tag_of(Some(layout)) == Some(state.layouts[i].0),
        tag_under(state.layouts, layout.name) == Some(state.layouts[i].0),
{
    assert(is_tag_named(state.layouts, layout.name, i));
    let found = choose|found: int| is_tag_named(state.layouts, layout.name, found);
    assert(is_tag_named(state.layouts, layout.name, found));
    assert(found == i);
}

/// A layout whose name no entry carries has no tag, and neither has no layout at all.
pub proof fn a_layout_nothing_names_has_no_tag<H>(state: StateView<H>, layout: LayoutView)
    ensures
        state.tag_of(None) is None,
        (forall|i: int|
            0 <= i < state.layouts.len() ==> (#[trigger] state.layouts[i]).1.name != layout.name)
            ==> state.tag_of(Some(layout)) is None && tag_under(state.layouts, layout.name) is None,
{
}

/// A key that types and passes or waits is recorded last, under the layout the daemon believes is
/// selected and with the copy that was captured of it, and everything recorded before it stays but
/// for the oldest of 512. Nothing else of the daemon changes but the count of what waits, and
/// nothing is asked for.
pub proof fn a_key_that_types_is_recorded<H>(
    state: StateView<H>,
    event: KeyEvent,
    captured: HeldEvent<H>,
    selected: Option<LayoutView>,
    tag: Seq<char>,
    now: Instant,
)
    requires
        types(event),
        state.current == Some(tag),
    ensures
        ({
            let after = state.after_key(event, Some(captured), selected, now);
            let before = state.history.entries;
            let entries = after.history.entries;
            &&& entries.len() > 0
            &&& entries.last().kind == if event.keycode == 49 {
                Kind::Space
            } else {
                Kind::Letter
            }
            &&& entries.last().tag == tag
            &&& entries.last().payload == captured
            &&& entries.last().starts_run <==> before.len() == 0 || before.last().tag != tag
            &&& before.len() != 512 ==> entries.drop_last() == before
            &&& before.len() == 512 ==> entries.drop_last() == before.drop_first()
            &&& !after.history.flipped
            &&& after == (StateView { history: after.history, barrier: after.barrier, ..state })
            &&& state.step_key(event, selected, now) == StepView::<H>::quiet()
        }),
{
    crate::history::every_key_asks_its_own_thing_of_the_history(event);
    crate::history::a_keystroke_is_recorded_last(
        state.history,
        if event.keycode == 49 {
            Kind::Space
        } else {
            Kind::Letter
        },
        Some(tag),
        captured,
    );
}

/// Whether the event is a key going down, by finger or repeated, that types something: no chord
/// with Command or Control, no key that moves the caret, not delete and no signal key.
pub open spec fn types(event: KeyEvent) -> bool {
    let key = event.keycode;
    &&& event.kind == EventKind::Down
    &&& event.flags & 0x10_0000 == 0
    &&& event.flags & 0x4_0000 == 0
    &&& key != 36 && key != 76 && key != 48 && key != 53 && key != 115 && key != 116 && key != 119
    &&& key != 121 && key != 117 && key != 123 && key != 124 && key != 125 && key != 126
    &&& key != 51 && key != 79 && key != 80
}

/// Delete, passed or waiting, drops the last keystroke and no other.
pub proof fn a_delete_drops_the_last_keystroke<H>(
    state: StateView<H>,
    event: KeyEvent,
    captured: Option<HeldEvent<H>>,
    selected: Option<LayoutView>,
    now: Instant,
)
    requires
        event.kind == EventKind::Down,
        event.keycode == 51,
        event.flags & 0x10_0000 == 0,
        event.flags & 0x4_0000 == 0,
    ensures
        ({
            let after = state.after_key(event, captured, selected, now);
            &&& state.history.entries.len() > 0 ==> after.history.entries
                == state.history.entries.drop_last() && !after.history.flipped
            &&& state.history.entries.len() == 0 ==> after.history == state.history
            &&& after == (StateView { history: after.history, barrier: after.barrier, ..state })
            &&& state.step_key(event, selected, now) == StepView::<H>::quiet()
        }),
{
    crate::history::every_key_asks_its_own_thing_of_the_history(event);
}

/// A click forgets what was typed as the tap hands it over, and so do a chord with Command or
/// Control, a key that moves the caret, a keystroke typed while the daemon knows of no selected
/// layout and one no copy could be made of, unless it is a signal key.
pub proof fn a_key_the_history_cannot_follow_forgets_it<H>(
    state: StateView<H>,
    event: KeyEvent,
    captured: Option<HeldEvent<H>>,
    selected: Option<LayoutView>,
    now: Instant,
)
    requires
        ({
            let key = event.keycode;
            ||| event.kind == EventKind::MouseDown
            ||| {
                &&& event.kind == EventKind::Down
                &&& key != 79 && key != 80
                &&& {
                    ||| event.flags & 0x10_0000 != 0
                    ||| event.flags & 0x4_0000 != 0
                    ||| key == 36 || key == 76 || key == 48 || key == 53 || key == 115
                    ||| key == 116 || key == 119 || key == 121 || key == 117 || key == 123
                    ||| key == 124 || key == 125 || key == 126
                }
            }
            ||| types(event) && (state.current is None || captured is None)
        }),
    ensures
        ({
            let after = state.after_key(event, captured, selected, now);
            &&& after.history.entries.len() == 0
            &&& !after.history.flipped
            &&& after == (StateView { history: after.history, barrier: after.barrier, ..state })
            &&& state.step_key(event, selected, now) == StepView::<H>::quiet()
        }),
{
    crate::history::every_key_asks_its_own_thing_of_the_history(event);
}

/// A key coming up, a modifier and a signal key leave what was typed as it is.
pub proof fn a_key_that_types_nothing_leaves_the_history_alone<H>(
    state: StateView<H>,
    event: KeyEvent,
    captured: Option<HeldEvent<H>>,
    selected: Option<LayoutView>,
    now: Instant,
)
    requires
        event.kind == EventKind::Up || event.kind == EventKind::Flags || (event.kind
            == EventKind::Down && (event.keycode == 79 || event.keycode == 80)),
    ensures
        state.after_key(event, captured, selected, now).history == state.history,
{
    crate::history::every_key_asks_its_own_thing_of_the_history(event);
}

/// Whatever the tap hands over, the barrier decides about it and learns of it, a click, a key and
/// a signal key alike, and is told of a selected layout only where the switch key asks for it.
pub proof fn the_barrier_meets_every_event<H>(
    state: StateView<H>,
    event: KeyEvent,
    captured: Option<HeldEvent<H>>,
    selected: Option<LayoutView>,
    now: Instant,
)
    ensures
        state.current_for(event, selected) == if event.keycode == 80 {
            state.tag_of(selected)
        } else {
            None
        },
        !(state.barrier.decides(event, state.current_for(event, selected)).request is Select)
            ==> state.after_key(event, captured, selected, now).barrier == state.barrier.after_key(
            event,
            state.current_for(event, selected),
            now as int,
        ),
{
}

/// Outside a switch, a press of the switch key starts one to the layout behind the selected one in
/// the cycle, wrapping at the end: that layout is selected, the watchdog is armed for the hold, and
/// from then on keys wait. Nothing of what was typed, held or remembered changes.
pub proof fn a_press_of_the_switch_key_selects_the_layout_behind<H>(
    state: StateView<H>,
    event: KeyEvent,
    captured: Option<HeldEvent<H>>,
    selected: Option<LayoutView>,
    i: int,
    j: int,
    now: Instant,
)
    requires
        state.consistent(),
        event.kind == EventKind::Down,
        event.stroke == Stroke::First,
        event.keycode == 80,
        0 <= i < state.cycle.len(),
        forall|k: int| 0 <= k < i ==> #[trigger] state.cycle[k] != state.cycle[i],
        match state.barrier.phase {
            Phase::Idle => state.tag_of(selected) == Some(state.cycle[i]),
            Phase::Selecting { expected, deadline: _ } => expected == state.cycle[i],
            _ => false,
        },
        0 <= j < state.layouts.len(),
        state.layouts[j].0 == state.cycle[(i + 1) % (state.cycle.len() as int)],
        crate::ordered::ascending(state.layouts),
    ensures
        ({
            let target = state.cycle[(i + 1) % (state.cycle.len() as int)];
            &&& state.step_key(event, selected, now) == (StepView::<H> {
                watchdog: Watchdog::Arm(state.hold),
                post: Seq::empty(),
                task: TaskView::Select { tag: target, layout: state.layouts[j].1 },
            })
            &&& state.after_key(event, captured, selected, now) == (StateView {
                barrier: BarrierView {
                    cycle: state.cycle,
                    hold: state.hold as int,
                    phase: Phase::Switching {
                        expected: target,
                        deadline: now + state.hold,
                        held: 0,
                    },
                },
                switched_at: Some(now),
                ..state
            })
        }),
{
    crate::barrier::the_switch_key_asks_for_the_layout_behind_the_selected_one(
        state.barrier,
        event,
        state.tag_of(selected),
        i,
        now as int,
    );
    crate::ordered::lemma_lookup_in_ascending(state.layouts, j);
}

/// A layout the cycle does not carry leads to its first entry, and so does one no tag names.
pub proof fn a_press_of_the_switch_key_leads_into_the_cycle<H>(
    state: StateView<H>,
    event: KeyEvent,
    selected: Option<LayoutView>,
    j: int,
    now: Instant,
)
    requires
        state.consistent(),
        event.kind == EventKind::Down,
        event.stroke == Stroke::First,
        event.keycode == 80,
        state.barrier.phase is Idle,
        state.cycle.len() > 0,
        forall|k: int|
            0 <= k < state.cycle.len() ==> state.tag_of(selected) != Some(
                #[trigger] state.cycle[k],
            ),
        0 <= j < state.layouts.len(),
        state.layouts[j].0 == state.cycle[0],
        crate::ordered::ascending(state.layouts),
    ensures
        state.step_key(event, selected, now).task == (TaskView::Select {
            tag: state.cycle[0],
            layout: state.layouts[j].1,
        }),
        state.step_key(event, selected, now).watchdog == Watchdog::Arm(state.hold),
{
    crate::barrier::the_switch_key_leads_back_into_the_cycle(
        state.barrier,
        event,
        state.tag_of(selected),
        now as int,
    );
    crate::ordered::lemma_lookup_in_ascending(state.layouts, j);
}

/// A switch to a tag without a layout is over before it began: what is held goes out, and the
/// keyboard is free.
pub proof fn a_switch_without_a_layout_frees_the_keyboard<H>(
    state: StateView<H>,
    event: KeyEvent,
    captured: Option<HeldEvent<H>>,
    selected: Option<LayoutView>,
    tag: Seq<char>,
    now: Instant,
)
    requires
        state.barrier.decides(event, state.current_for(event, selected)).request
            == RequestView::Select(tag),
        forall|i: int| 0 <= i < state.layouts.len() ==> (#[trigger] state.layouts[i]).0 != tag,
    ensures
        state.after_key(event, captured, selected, now).barrier.phase is Idle,
        state.after_key(event, captured, selected, now).held.len() == 0,
        state.step_key(event, selected, now).task is Nothing,
        state.step_key(event, selected, now).watchdog == Watchdog::Disarm,
        state.step_key(event, selected, now).post == replayed(state.held),
{
    crate::ordered::a_key_is_found_where_an_entry_stands_under_it(state.layouts, tag);
}

/// A press of the retype key changes nothing by itself. Outside a switch it asks for the planned
/// retype, in the selected layout where that is the right one and after a select of the right one
/// where it is not; with nothing planned, with no layout under its tag, and while a switch runs it
/// asks for nothing.
pub proof fn a_press_of_the_retype_key_asks_for_what_is_planned<H>(
    state: StateView<H>,
    event: KeyEvent,
    captured: Option<HeldEvent<H>>,
    selected: Option<LayoutView>,
    now: Instant,
)
    requires
        event.kind == EventKind::Down,
        event.stroke == Stroke::First,
        event.keycode == 79,
    ensures
        ({
            let step = state.step_key(event, selected, now);
            let plan = state.history.plan(state.cycle);
            let free = state.barrier.phase is Idle || state.barrier.phase is Selecting;
            &&& state.after_key(event, captured, selected, now) == state
            &&& step.watchdog == Watchdog::Keep
            &&& step.post.len() == 0
            &&& !free || plan is None ==> step.task is Nothing
            &&& free && plan is Some ==> {
                let flip = plan->0;
                if state.current == Some(flip.target) {
                    step.task == (TaskView::Retype { flip, switch: Switch::Unnecessary })
                } else if exists|i: int|
                    0 <= i < state.layouts.len() && (#[trigger] state.layouts[i]).0
                        == flip.target {
                    step.task matches TaskView::SelectToRetype { flip: asked, layout } && asked
                        == flip && lookup(state.layouts, flip.target) == Some(layout)
                } else {
                    step.task is Nothing
                }
            }
            &&& free ==> step == state.step_retype()
        }),
{
    if state.history.plan(state.cycle) is Some {
        crate::ordered::a_key_is_found_where_an_entry_stands_under_it(
            state.layouts,
            state.history.plan(state.cycle)->0.target,
        );
    }
}

/// The daemon once these keys were handed over one after the other, each with the copy that was
/// captured of it.
pub open spec fn after_typing<H>(state: StateView<H>, keys: Seq<Typed<H>>) -> StateView<H>
    decreases keys.len(),
{
    if keys.len() == 0 {
        state
    } else {
        let key = keys.last();
        after_typing(state, keys.drop_last()).after_key(
            key.event,
            key.captured,
            key.selected,
            key.now,
        )
    }
}

proof fn lemma_typing_is_recorded<H>(state: StateView<H>, keys: Seq<Typed<H>>, tag: Seq<char>)
    requires
        state.current == Some(tag),
        state.history.entries.len() == 0,
        !state.history.flipped,
        keys.len() <= 512,
        forall|i: int|
            0 <= i < keys.len() ==> types((#[trigger] keys[i]).event) && keys[i].captured is Some,
    ensures
        ({
            let after = after_typing(state, keys);
            &&& after.history.entries.len() == keys.len()
            &&& !after.history.flipped
            &&& after == (StateView { history: after.history, barrier: after.barrier, ..state })
            &&& after.barrier.holding() == state.barrier.holding()
            &&& forall|i: int|
                0 <= i < keys.len() ==> {
                    let entry = #[trigger] after.history.entries[i];
                    &&& entry.payload == keys[i].captured->0
                    &&& entry.tag == tag
                    &&& entry.starts_run <==> i == 0
                    &&& entry.kind == if keys[i].event.keycode == 49 {
                        Kind::Space
                    } else {
                        Kind::Letter
                    }
                }
        }),
    decreases keys.len(),
{
    if keys.len() > 0 {
        let before = keys.drop_last();
        let key = keys.last();
        assert(keys[keys.len() - 1] == key);
        assert forall|i: int| 0 <= i < before.len() implies types((#[trigger] before[i]).event)
            && before[i].captured is Some by {
            assert(before[i] == keys[i]);
        }
        lemma_typing_is_recorded(state, before, tag);
        let typed = after_typing(state, before);
        a_key_that_types_is_recorded(
            typed,
            key.event,
            key.captured->0,
            key.selected,
            tag,
            key.now,
        );
        crate::barrier::any_other_event_waits_only_in_a_switch(
            typed.barrier,
            key.event,
            typed.current_for(key.event, key.selected),
            key.now as int,
        );
        let after = after_typing(state, keys);
        let entries = after.history.entries;
        assert(entries.len() == keys.len());
        assert forall|i: int| 0 <= i < keys.len() implies {
            let entry = #[trigger] entries[i];
            &&& entry.payload == keys[i].captured->0
            &&& entry.tag == tag
            &&& entry.starts_run <==> i == 0
            &&& entry.kind == if keys[i].event.keycode == 49 {
                Kind::Space
            } else {
                Kind::Letter
            }
        } by {
            if i < before.len() {
                assert(entries.drop_last()[i] == entries[i]);
                assert(typed.history.entries[i].payload == before[i].captured->0);
            }
        }
        if before.len() > 0 {
            assert(typed.history.entries[before.len() - 1].tag == tag);
        }
    }
}

/// Everything typed since the history was last empty is there to be retyped: each key with what
/// replays it, in the order it was typed, under the layout it was typed in. A press of the retype
/// key after a word of letters covers all of them.
pub proof fn what_was_typed_can_be_retyped<H>(
    state: StateView<H>,
    keys: Seq<Typed<H>>,
    tag: Seq<char>,
    press: KeyEvent,
    selected: Option<LayoutView>,
    now: Instant,
)
    requires
        state.current == Some(tag),
        state.history.entries.len() == 0,
        !state.history.flipped,
        state.cycle.len() > 0,
        state.barrier.phase is Idle || state.barrier.phase is Selecting,
        0 < keys.len() <= 512,
        forall|i: int|
            0 <= i < keys.len() ==> types((#[trigger] keys[i]).event) && keys[i].event.keycode
                != 49 && keys[i].captured is Some,
        press.kind == EventKind::Down,
        press.stroke == Stroke::First,
        press.keycode == 79,
    ensures
        ({
            let after = after_typing(state, keys);
            let entries = after.history.entries;
            let plan = after.history.plan(state.cycle);
            &&& entries.len() == keys.len()
            &&& forall|i: int|
                0 <= i < keys.len() ==> (#[trigger] entries[i]).payload == keys[i].captured->0
                    && entries[i].tag == tag
            &&& plan matches Some(flip) && flip.count == keys.len()
            &&& after.step_key(press, selected, now) == after.step_retype()
        }),
{
    lemma_typing_is_recorded(state, keys, tag);
    let after = after_typing(state, keys);
    let entries = after.history.entries;
    crate::history::anything_typed_can_be_flipped(after.history, state.cycle);
    crate::history::the_first_press_covers_the_last_word(after.history, state.cycle);
    let start = entries.len() - after.history.plan(state.cycle)->0.count;
    if start > 0 {
        assert(entries[start].starts_run <==> start == 0);
        assert(entries[start - 1].kind == Kind::Letter);
    }
    a_press_of_the_retype_key_asks_for_what_is_planned(after, press, None, selected, now);
}

/// A select that went well makes its tag the layout the daemon believes is selected, and nothing
/// else. One that failed frees the keyboard: the keys that waited for a switch go out at once, and
/// nothing goes out where none did.
pub proof fn a_select_is_believed_or_given_up<H>(state: StateView<H>, tag: Seq<char>)
    ensures
        state.after_selected(tag, true) == (StateView { current: Some(tag), ..state }),
        state.step_selected(true) == StepView::<H>::quiet(),
        ({
            let after = state.after_selected(tag, false);
            let step = state.step_selected(false);
            match state.barrier.phase {
                Phase::Switching { expected: _, deadline: _, held: _ } => {
                    &&& after == (StateView {
                        barrier: BarrierView { phase: Phase::Idle, ..state.barrier },
                        held: Seq::empty(),
                        ..state
                    })
                    &&& step.watchdog == Watchdog::Disarm
                    &&& step.post == replayed(state.held)
                    &&& step.task is Nothing
                },
                Phase::Selecting { expected: _, deadline: _ } => {
                    &&& after == (StateView {
                        barrier: BarrierView { phase: Phase::Idle, ..state.barrier },
                        ..state
                    })
                    &&& step == StepView::<H>::quiet()
                },
                _ => after == state && step == StepView::<H>::quiet(),
            }
        }),
{
}

/// A retype whose layout was selected goes on in that layout, and one whose layout was refused
/// comes to nothing.
pub proof fn a_retype_goes_on_only_in_its_layout<H>(state: StateView<H>, flip: FlipView)
    ensures
        state.after_retype_selected(flip, true) == (StateView {
            current: Some(flip.target),
            ..state
        }),
        state.step_retype_selected(flip, true).watchdog == Watchdog::Keep,
        state.step_retype_selected(flip, true).post.len() == 0,
        state.step_retype_selected(flip, true).task == (TaskView::Retype {
            flip,
            switch: Switch::Needed,
        }),
        state.after_retype_selected(flip, false) == state,
        state.step_retype_selected(flip, false).task is Nothing,
        state.step_retype_selected(flip, false).post.len() == 0,
        state.step_retype_selected(flip, false).watchdog == Watchdog::Keep,
{
}

/// A retype with everything made posts one backspace for each keystroke it covers. The covered
/// keystrokes follow, down and up, in the order they were typed: right behind the backspaces where
/// their layout is selected already, and once it is confirmed where it is not. They show in that
/// layout from then on, and nothing else of the daemon changes.
pub proof fn a_retype_posts_its_backspaces_and_then_its_keystrokes<H>(
    state: StateView<H>,
    switch: Switch,
    made: Seq<Copies<H>>,
    copies: Seq<Copies<H>>,
    now: Instant,
)
    requires
        all_made(made),
        all_made(copies),
        state.barrier.phase is Idle || state.barrier.phase is Selecting,
        state.history.plan(state.cycle) matches Some(flip) && flip.count == made.len()
            && flip.count == copies.len(),
    ensures
        ({
            let flip = state.history.plan(state.cycle)->0;
            let entries = state.history.entries;
            let step = state.step_retyped(switch, made, copies);
            let after = state.after_retype(switch, made, copies, now);
            let queued = strokes(state.covered(copies.len()), copies);
            &&& forall|i: int|
                0 <= i < copies.len() ==> #[trigger] state.covered(copies.len())[i]
                    == entries[entries.len() - copies.len() + i].payload.carried
            &&& state.covered(copies.len()).len() == copies.len()
            &&& step.task is Nothing
            &&& after.history == state.history.after_flip(state.cycle)
            &&& switch == Switch::Unnecessary ==> {
                &&& step.watchdog == Watchdog::Keep
                &&& step.post == backspaces(made) + replayed(state.held + queued)
                &&& after == (StateView {
                    history: after.history,
                    held: Seq::empty(),
                    ..state
                })
            }
            &&& switch == Switch::Needed ==> {
                &&& step.watchdog == Watchdog::Arm(state.hold)
                &&& step.post == backspaces(made)
                &&& after == (StateView {
                    history: after.history,
                    held: state.held + queued,
                    barrier: BarrierView {
                        phase: Phase::Switching {
                            expected: flip.target,
                            deadline: now + state.barrier.hold,
                            held: state.held.len() + 2 * copies.len(),
                        },
                        ..state.barrier
                    },
                    switched_at: Some(now),
                    ..state
                })
            }
        }),
{
    crate::macos::tap::every_stroke_is_posted_with_its_own_copies(
        state.covered(copies.len()),
        copies,
    );
}

/// A retype that a switch got ahead of goes out as it is, its backspaces first, and one that could
/// not be copied forgets what was typed without deleting anything.
pub proof fn a_retype_that_cannot_wait_loses_nothing<H>(
    state: StateView<H>,
    switch: Switch,
    made: Seq<Copies<H>>,
    copies: Seq<Copies<H>>,
    now: Instant,
)
    ensures
        ({
            let step = state.step_retyped(switch, made, copies);
            let after = state.after_retype(switch, made, copies, now);
            let queued = strokes(state.covered(copies.len()), copies);
            &&& step.task is Nothing
            &&& !all_made(made) ==> after == state && step == StepView::<H>::quiet()
            &&& all_made(made) && !all_made(copies) ==> {
                &&& step.watchdog == Watchdog::Keep
                &&& step.post == replayed(state.held)
                &&& after.history.entries.len() == 0
                &&& !after.history.flipped
                &&& after == (StateView { history: after.history, held: Seq::empty(), ..state })
            }
            &&& all_made(made) && all_made(copies) && switch == Switch::Needed && (
            state.barrier.phase is Switching || state.barrier.phase is Settling) ==> {
                &&& step.watchdog == Watchdog::Disarm
                &&& step.post == backspaces(made) + replayed(state.held + queued)
                &&& after == (StateView {
                    history: state.history.after_flip(state.cycle),
                    held: Seq::empty(),
                    ..state
                })
            }
        }),
{
}

/// A confirmation tells the daemon which layout is selected, and the application that has the
/// keyboard is remembered with it. The switch that waited for exactly this layout settles for ten
/// milliseconds, and any other layout asks for nothing. What was typed and what is held stay.
pub proof fn a_confirmation_is_believed_and_remembered<H>(
    state: StateView<H>,
    current: Option<Seq<char>>,
    now: Instant,
)
    ensures
        ({
            let after = state.after_confirm(current, now);
            let step = state.step_confirm(current);
            let settles = state.barrier.phase matches Phase::Switching {
                expected,
                deadline: _,
                held: _,
            } && current == Some(expected);
            &&& after == (StateView {
                current,
                memory: after.memory,
                barrier: state.barrier.after_confirmed(current, now as int),
                ..state
            })
            &&& after.memory.pins == state.memory.pins
            &&& after.memory.frontmost == state.memory.frontmost
            &&& after.memory.remembered == if state.focused is Some && current is Some {
                state.memory.remembered.insert(state.focused->0, current->0)
            } else {
                state.memory.remembered
            }
            &&& step.post.len() == 0
            &&& step.task is Nothing
            &&& settles ==> step.watchdog == Watchdog::Arm(10_000_000)
            &&& !settles ==> step.watchdog == Watchdog::Keep
            &&& state.settles(current) <==> settles
        }),
{
}

/// The keyboard moving to an application forgets what was typed and records what the application
/// it leaves was using. Outside a switch the layout the application gets is selected, where there
/// is one to select and it is not selected already, and the watchdog is armed; in a switch nothing
/// is asked for.
pub proof fn the_keyboard_moving_selects_what_the_application_gets<H>(
    state: StateView<H>,
    app: Seq<char>,
    current: Option<Seq<char>>,
    now: Instant,
)
    ensures
        ({
            let after = state.after_activation(app, current, now);
            let step = state.step_activation(app, current, now);
            let asked = state.memory.asked_by(app, current);
            let free = state.barrier.phase is Idle || state.barrier.phase is Selecting;
            &&& after.history.entries.len() == 0
            &&& !after.history.flipped
            &&& after.memory == state.memory.after_activated(app, current)
            &&& step.post.len() == 0
            &&& !free || asked is None ==> {
                &&& step == StepView::<H>::quiet()
                &&& after == (StateView {
                    history: after.history,
                    memory: after.memory,
                    ..state
                })
            }
            &&& free && asked is Some ==> {
                let found = lookup(state.layouts, asked->0);
                &&& step.watchdog == Watchdog::Arm(state.hold)
                &&& found is Some ==> {
                    &&& step.task == (TaskView::Select { tag: asked->0, layout: found->0 })
                    &&& after == (StateView {
                        history: after.history,
                        memory: after.memory,
                        barrier: BarrierView {
                            phase: Phase::Selecting {
                                expected: asked->0,
                                deadline: now + state.barrier.hold,
                            },
                            ..state.barrier
                        },
                        switched_at: Some(now),
                        ..state
                    })
                }
                &&& found is None ==> {
                    &&& step.task is Nothing
                    &&& after == (StateView {
                        history: after.history,
                        memory: after.memory,
                        barrier: BarrierView { phase: Phase::Idle, ..state.barrier },
                        switched_at: Some(now),
                        ..state
                    })
                }
            }
        }),
{
}

/// The keyboard moving to a pinned application outside a switch selects the layout of its pin,
/// whatever the application was last used with, unless the pin is selected already.
pub proof fn the_keyboard_moving_to_a_pinned_application_selects_its_pin<H>(
    state: StateView<H>,
    app: Seq<char>,
    current: Option<Seq<char>>,
    i: int,
    now: Instant,
)
    requires
        state.memory.pins.dom().contains(app),
        state.barrier.phase is Idle || state.barrier.phase is Selecting,
        0 <= i < state.layouts.len(),
        state.layouts[i].0 == state.memory.pins[app],
        crate::ordered::ascending(state.layouts),
    ensures
        state.step_activation(app, current, now).task == if current == Some(
            state.memory.pins[app],
        ) {
            TaskView::Nothing
        } else {
            TaskView::Select { tag: state.memory.pins[app], layout: state.layouts[i].1 }
        },
{
    crate::memory::a_pinned_application_asks_for_its_pin_only(state.memory, app, current);
    crate::ordered::lemma_lookup_in_ascending(state.layouts, i);
}

/// Before its deadline a wait is watched for the time that is left. From the deadline on the keys
/// that waited go out and the keyboard is free; a switch that was never confirmed is counted, with
/// how many keys it kept, and one that settled is not. A select that was never confirmed is given
/// up, and nothing else changes.
pub proof fn the_deadline_lets_everything_go<H>(state: StateView<H>, now: Instant)
    requires
        state.barrier.deadline() matches Some(deadline) ==> deadline <= u64::MAX,
    ensures
        ({
            let after = state.after_deadline(now);
            let step = state.step_deadline(now);
            let idle = BarrierView { phase: Phase::Idle, ..state.barrier };
            &&& step.task is Nothing
            &&& match state.barrier.phase {
                Phase::Idle => after == state && step == StepView::<H>::quiet(),
                Phase::Switching { expected: _, deadline, held } => if now < deadline {
                    &&& after == state
                    &&& step.post.len() == 0
                    &&& step.watchdog matches Watchdog::Arm(left) && left == deadline - now
                } else {
                    &&& step.watchdog == Watchdog::Disarm
                    &&& step.post == replayed(state.held)
                    &&& after == (StateView {
                        barrier: idle,
                        held: Seq::empty(),
                        releases: after.releases,
                        ..state
                    })
                    &&& state.releases.count < usize::MAX ==> after.releases.count
                        == state.releases.count + 1
                    &&& held <= usize::MAX ==> after.releases.last == held
                },
                Phase::Selecting { expected: _, deadline } => if now < deadline {
                    &&& after == state
                    &&& step.post.len() == 0
                    &&& step.watchdog matches Watchdog::Arm(left) && left == deadline - now
                } else {
                    &&& step == StepView::<H>::quiet()
                    &&& after == (StateView { barrier: idle, ..state })
                },
                Phase::Settling { deadline, held: _ } => if now < deadline {
                    &&& after == state
                    &&& step.post.len() == 0
                    &&& step.watchdog matches Watchdog::Arm(left) && left == deadline - now
                } else {
                    &&& step.watchdog == Watchdog::Disarm
                    &&& step.post == replayed(state.held)
                    &&& after == (StateView { barrier: idle, held: Seq::empty(), ..state })
                },
            }
        }),
{
}

/// A held event waits behind all the others once its copy was made, and no other verdict and no
/// failed copy touches the queue. Letting go posts all that waits, in order, and leaves nothing.
pub proof fn only_a_held_event_joins_the_queue<H>(
    state: StateView<H>,
    verdict: Verdict,
    copy: Option<HeldEvent<H>>,
)
    ensures
        state.after_carried_out(verdict, copy) == (StateView {
            held: if verdict == Verdict::Hold && copy is Some {
                state.held.push(copy->0)
            } else {
                state.held
            },
            ..state
        }),
        state.after_release() == (StateView { held: Seq::empty(), ..state }),
        state.step_release().watchdog == Watchdog::Disarm,
        state.step_release().post == replayed(state.held),
        state.step_release().task is Nothing,
        StepView::<H>::quiet().watchdog == Watchdog::Keep,
        StepView::<H>::quiet().post.len() == 0,
        StepView::<H>::quiet().task is Nothing,
{
}

/// A switch waits fifty milliseconds for its confirmation, and settles for ten after it.
pub proof fn a_switch_takes_sixty_milliseconds_at_most()
    ensures
        HOLD == 50_000_000,
        SETTLE == 10_000_000,
        SWITCH_KEYCODE == 80,
{
}

/// An optional layout is what the layout looks like.
pub proof fn a_layout_is_what_it_looks_like(layout: Layout)
    ensures
        layout_text(Some(&layout)) == Some(layout@),
        layout_text(None) is None,
{
}

/// A step and its task say what they are, with every tag and every layout as they are.
pub proof fn a_step_says_what_it_is<H>(
    step: Step<H>,
    tag: LayoutTag,
    layout: Layout,
    flip: Flip,
    switch: Switch,
)
    ensures
        step@.watchdog == step.watchdog,
        step@.post == step.post@,
        step@.task == step.task@,
        Task::Nothing@ is Nothing,
        (Task::Select { tag, layout })@ == (TaskView::Select { tag: tag.0@, layout: layout@ }),
        (Task::SelectToRetype { flip, layout })@ == (TaskView::SelectToRetype {
            flip: FlipView { count: flip.count as nat, target: flip.target.0@ },
            layout: layout@,
        }),
        (Task::Retype { flip, switch })@ == (TaskView::Retype {
            flip: FlipView { count: flip.count as nat, target: flip.target.0@ },
            switch,
        }),
{
}

/// A key that comes up and a modifier type nothing, whether they pass or wait.
pub proof fn a_key_that_comes_up_types_nothing<H>(
    state: StateView<H>,
    event: KeyEvent,
    captured: Option<HeldEvent<H>>,
)
    requires
        event.kind == EventKind::Up || event.kind == EventKind::Flags,
    ensures
        state.after_typed(event, captured) == state,
{
}

/// What is typed reaches the history the same whether it is handed over as it is or with the
/// verdict on it: an event that passes or waits is typed, and a swallowed one is not.
pub proof fn only_what_passes_or_waits_is_typed<H>(
    state: StateView<H>,
    event: KeyEvent,
    captured: Option<HeldEvent<H>>,
    selected: Option<LayoutView>,
    now: Instant,
)
    ensures
        ({
            let verdict = state.barrier.decides(
                event,
                state.current_for(event, selected),
            ).verdict;
            state.after_key(event, captured, selected, now).history == if verdict
                == Verdict::Swallow {
                state.history
            } else {
                state.after_typed(event, captured).history
            }
        }),
        state.after_typed(event, captured) == (StateView {
            history: state.after_typed(event, captured).history,
            ..state
        }),
{
}

} // verus!
