//! The history of what was typed, as plain data the flip reads.
//!
//! The history takes keyboard events as plain data plus the tag they were typed in, and carries
//! whatever replays them as an opaque payload.

use vstd::prelude::*;

use crate::barrier::{EventKind, KeyEvent, RETYPE_KEYCODE, SWITCH_KEYCODE};
use crate::cycle::{next, next_tag, tag_text};
use crate::macos::tis::{tags, LayoutTag};

verus! {

/// How many keystrokes the history keeps before the oldest one is dropped.
pub const CAP: usize = 512;

/// The flag a chord carries while Command is down.
pub const COMMAND: u64 = 0x10_0000;

/// The flag a chord carries while Control is down.
pub const CONTROL: u64 = 0x4_0000;

/// The virtual keycode of the delete key.
pub const DELETE: u16 = 51;

/// The virtual keycode of the space bar.
pub const SPACE: u16 = 49;

/// What a recorded keystroke contributes to a word.
#[derive(Debug, Clone, Copy, PartialEq, Eq, Structural)]
pub enum Kind {
    /// A key that types a letter of the word.
    Letter,
    /// The space that ends a word.
    Space,
}

/// What one keyboard event asks the history to do.
#[derive(Debug, Clone, Copy, PartialEq, Eq, Structural)]
pub enum Action {
    /// Append the keystroke under the layout selected right now.
    Record(Kind),
    /// Drop the last keystroke, as the delete key did downstream.
    Erase,
    /// Forget everything: the caret moved somewhere the history cannot follow.
    Clear,
    /// Leave the history alone.
    Ignore,
}

/// How much to retype, and the layout to retype it in.
#[derive(Debug, PartialEq, Eq)]
pub struct Flip {
    /// How many keystrokes the flip covers, counted back from the last one.
    pub count: usize,
    /// The layout the covered keystrokes must be retyped in.
    pub target: LayoutTag,
}

/// A flip as plain text.
pub struct FlipView {
    /// How many keystrokes the flip covers, counted back from the last one.
    pub count: nat,
    /// The layout the covered keystrokes must be retyped in.
    pub target: Seq<char>,
}

impl View for Flip {
    type V = FlipView;

    open spec fn view(&self) -> FlipView {
        FlipView { count: self.count as nat, target: self.target@ }
    }
}

impl Clone for Flip {
    fn clone(&self) -> (copy: Flip)
        ensures
            copy == *self,
    {
        Flip { count: self.count, target: self.target.clone() }
    }
}

/// The flip an optional flip stands for, as plain text.
pub open spec fn flip_text(flip: Option<Flip>) -> Option<FlipView> {
    match flip {
        Some(flip) => Some(flip@),
        None => None,
    }
}

/// The keys that move the caret out of the history's reach: both Returns, Tab, Escape, Home, Page
/// Up, End, Page Down, forward delete and the four arrows.
pub open spec fn moves_the_caret(keycode: u16) -> bool {
    ||| keycode == 36
    ||| keycode == 76
    ||| keycode == 48
    ||| keycode == 53
    ||| keycode == 115
    ||| keycode == 116
    ||| keycode == 119
    ||| keycode == 121
    ||| keycode == 117
    ||| 123 <= keycode <= 126
}

/// What an event asks the history to do.
pub open spec fn asked_of_history(event: KeyEvent) -> Action {
    match event.kind {
        EventKind::Up => Action::Ignore,
        EventKind::Flags => Action::Ignore,
        EventKind::MouseDown => Action::Clear,
        EventKind::Down => if event.flags & (COMMAND | CONTROL) != 0 || moves_the_caret(
            event.keycode,
        ) {
            Action::Clear
        } else if event.keycode == DELETE {
            Action::Erase
        } else if event.keycode == SPACE {
            Action::Record(Kind::Space)
        } else if event.keycode == SWITCH_KEYCODE || event.keycode == RETYPE_KEYCODE {
            Action::Ignore
        } else {
            Action::Record(Kind::Letter)
        },
    }
}

/// Returns what `event` asks the history to do.
///
/// A key-down carrying Command or Control, and every key that moves the caret out of the history's
/// reach, clears it; the two signal keys leave it alone.
pub fn action(event: KeyEvent) -> (asked: Action)
    ensures
        asked == asked_of_history(event),
{
    match event.kind {
        EventKind::Up => {
            return Action::Ignore;
        },
        EventKind::Flags => {
            return Action::Ignore;
        },
        EventKind::MouseDown => {
            return Action::Clear;
        },
        EventKind::Down => {},
    }
    if event.flags & (COMMAND | CONTROL) != 0 {
        return Action::Clear;
    }
    let keycode: u16 = event.keycode;
    match keycode {
        36 | 76 | 48 | 53 | 115 | 116 | 119 | 121 | 117 | 123 | 124 | 125 | 126 => {
            return Action::Clear;
        },
        _ => {},
    }
    if keycode == DELETE {
        return Action::Erase;
    }
    if keycode == SPACE {
        return Action::Record(Kind::Space);
    }
    if keycode == SWITCH_KEYCODE || keycode == RETYPE_KEYCODE {
        return Action::Ignore;
    }
    Action::Record(Kind::Letter)
}

/// A recorded keystroke as plain data.
pub struct EntryView<T> {
    /// What the keystroke contributes to a word.
    pub kind: Kind,
    /// Whether the layout changed under the fingers right before it.
    pub starts_run: bool,
    /// The layout it shows in.
    pub tag: Seq<char>,
    /// What replays it.
    pub payload: T,
}

/// The history as plain data.
#[verifier::ext_equal]
pub struct HistoryView<T> {
    /// The keystrokes, the oldest first.
    pub entries: Seq<EntryView<T>>,
    /// Whether the last thing that happened to the history was a flip.
    pub flipped: bool,
}

/// Where the last run starts: at the last keystroke the layout changed before, or else at the
/// oldest one.
pub open spec fn tail_start<T>(entries: Seq<EntryView<T>>) -> int
    decreases entries.len(),
{
    if entries.len() == 0 {
        0
    } else if entries.last().starts_run {
        entries.len() - 1
    } else {
        tail_start(entries.drop_last())
    }
}

/// Where the keystrokes of this kind that end at `from` start, not looking past `floor`.
pub open spec fn back_over<T>(
    entries: Seq<EntryView<T>>,
    kind: Kind,
    from: int,
    floor: int,
) -> int
    decreases from - floor,
{
    if from > floor && entries[from - 1].kind == kind {
        back_over(entries, kind, from - 1, floor)
    } else {
        from
    }
}

/// Where the last word starts: the letters back to the space before them, with the spaces that
/// follow, within the last run.
pub open spec fn word_start<T>(entries: Seq<EntryView<T>>) -> int {
    let tail = tail_start(entries);
    let letters_end = back_over(entries, Kind::Space, entries.len() as int, tail);
    back_over(entries, Kind::Letter, letters_end, tail)
}

impl<T> HistoryView<T> {
    /// A history of nothing at all.
    pub open spec fn nothing() -> HistoryView<T> {
        HistoryView { entries: Seq::empty(), flipped: false }
    }

    /// The history once a keystroke was typed: the oldest one makes room at [`CAP`], and one typed
    /// in a layout nothing names forgets everything.
    pub open spec fn after_record(
        self,
        kind: Kind,
        tag: Option<Seq<char>>,
        payload: T,
    ) -> HistoryView<T> {
        match tag {
            None => HistoryView::nothing(),
            Some(tag) => {
                let kept = if self.entries.len() == CAP {
                    self.entries.drop_first()
                } else {
                    self.entries
                };
                let starts_run = self.entries.len() == 0 || self.entries.last().tag != tag;
                HistoryView {
                    entries: kept.push(EntryView { kind, starts_run, tag, payload }),
                    flipped: false,
                }
            },
        }
    }

    /// The history once the last keystroke was deleted.
    pub open spec fn after_erase(self) -> HistoryView<T> {
        if self.entries.len() == 0 {
            self
        } else {
            HistoryView { entries: self.entries.drop_last(), flipped: false }
        }
    }

    /// Where the keystrokes the next flip covers start: the whole run right after a flip, and the
    /// last word otherwise.
    pub open spec fn covered_from(self) -> int {
        if self.flipped {
            tail_start(self.entries)
        } else {
            word_start(self.entries)
        }
    }

    /// What the next flip retypes: the covered keystrokes, in the layout after the one the first
    /// of them shows in.
    pub open spec fn plan(self, cycle: Seq<Seq<char>>) -> Option<FlipView> {
        if self.entries.len() == 0 {
            None
        } else {
            let start = self.covered_from();
            match next_tag(cycle, Some(self.entries[start].tag)) {
                Some(target) => Some(
                    FlipView { count: (self.entries.len() - start) as nat, target },
                ),
                None => None,
            }
        }
    }

    /// The history once the planned flip was carried out: the covered keystrokes show in the
    /// target, and nothing else about any keystroke changes.
    pub open spec fn after_flip(self, cycle: Seq<Seq<char>>) -> HistoryView<T> {
        match self.plan(cycle) {
            Some(flip) => HistoryView {
                entries: Seq::new(
                    self.entries.len(),
                    |i: int|
                        if i >= self.entries.len() - flip.count {
                            EntryView { tag: flip.target, ..self.entries[i] }
                        } else {
                            self.entries[i]
                        },
                ),
                flipped: true,
            },
            None => self,
        }
    }
}

enum Run {
    Start,
    Same,
}

struct Entry<T> {
    kind: Kind,
    run: Run,
    tag: LayoutTag,
    payload: T,
}

impl<T> View for Entry<T> {
    type V = EntryView<T>;

    closed spec fn view(&self) -> EntryView<T> {
        EntryView {
            kind: self.kind,
            starts_run: self.run is Start,
            tag: self.tag@,
            payload: self.payload,
        }
    }
}

enum Marker {
    Typed,
    Flipped,
}

/// The bounded list of keystrokes moji saw, each under the layout it was typed in.
pub struct History<T> {
    entries: Vec<Entry<T>>,
    last: Marker,
}

spec fn viewed<T>(entries: Seq<Entry<T>>) -> Seq<EntryView<T>> {
    Seq::new(entries.len(), |i: int| entries[i]@)
}

impl<T> View for History<T> {
    type V = HistoryView<T>;

    closed spec fn view(&self) -> HistoryView<T> {
        HistoryView { entries: viewed(self.entries@), flipped: self.last is Flipped }
    }
}

impl<T> Default for History<T> {
    fn default() -> (history: History<T>)
        ensures
            history@ == HistoryView::<T>::nothing(),
    {
        History::new()
    }
}

impl<T> History<T> {
    #[verifier::type_invariant]
    spec fn within_cap(self) -> bool {
        self.entries@.len() <= CAP
    }

    /// Creates an empty history.
    pub fn new() -> (history: History<T>)
        ensures
            history@ == HistoryView::<T>::nothing(),
    {
        History { entries: Vec::new(), last: Marker::Typed }
    }

    /// Appends one keystroke, dropping the oldest once [`CAP`] is reached.
    ///
    /// A keystroke typed in a layout the configuration does not name could never be retyped, so an
    /// absent `tag` clears the history instead of recording.
    pub fn record(&mut self, kind: Kind, tag: Option<LayoutTag>, payload: T)
        ensures
            final(self)@ == old(self)@.after_record(kind, tag_text(tag), payload),
    {
        proof {
            use_type_invariant(&*self);
        }
        let Some(tag) = tag else {
            self.clear();
            return;
        };
        let mut entries: Vec<Entry<T>> = Vec::new();
        std::mem::swap(&mut entries, &mut self.entries);
        let len: usize = entries.len();
        let run = if len == 0 {
            Run::Start
        } else if entries[len - 1].tag.same(&tag) {
            Run::Same
        } else {
            Run::Start
        };
        if len == CAP {
            entries.remove(0);
        }
        entries.push(Entry { kind, run, tag, payload });
        self.entries = entries;
        self.last = Marker::Typed;
        assert(self@ == old(self)@.after_record(kind, Some(tag@), payload));
    }

    /// Drops the last keystroke, and does nothing when there is none.
    pub fn erase(&mut self)
        ensures
            final(self)@ == old(self)@.after_erase(),
    {
        proof {
            use_type_invariant(&*self);
        }
        let mut entries: Vec<Entry<T>> = Vec::new();
        std::mem::swap(&mut entries, &mut self.entries);
        let dropped = entries.pop();
        self.entries = entries;
        if dropped.is_some() {
            self.last = Marker::Typed;
        }
    }

    /// Forgets every keystroke.
    pub fn clear(&mut self)
        ensures
            final(self)@ == HistoryView::<T>::nothing(),
    {
        self.entries = Vec::new();
        self.last = Marker::Typed;
    }

    /// Returns how many keystrokes the history holds.
    pub fn len(&self) -> (len: usize)
        ensures
            len == self@.entries.len(),
            len <= CAP,
    {
        proof {
            use_type_invariant(self);
        }
        self.entries.len()
    }

    /// Returns whether the history holds no keystroke at all.
    pub fn is_empty(&self) -> (empty: bool)
        ensures
            empty <==> self@.entries.len() == 0,
    {
        self.entries.len() == 0
    }

    /// Returns what the next flip retypes, without carrying it out.
    pub fn planned(&self, cycle: &[LayoutTag]) -> (flip: Option<Flip>)
        ensures
            flip_text(flip) == self@.plan(tags(cycle@)),
    {
        if self.entries.len() == 0 {
            return None;
        }
        let start: usize = self.start();
        let Some(target) = next(cycle, Some(&self.entries[start].tag)) else {
            return None;
        };
        Some(Flip { count: self.entries.len() - start, target })
    }

    /// Returns what to retype, the last word first and the whole tail on the press that follows.
    ///
    /// The tail is the run of keystrokes typed since the layout last changed under the fingers, and
    /// the target is the layout after the one the first covered keystroke shows in. The covered
    /// keystrokes take the target as their tag, so the press after a flip of the whole tail carries
    /// it back, while the run itself outlives every flip.
    pub fn flip(&mut self, cycle: &[LayoutTag]) -> (flip: Option<Flip>)
        ensures
            flip_text(flip) == old(self)@.plan(tags(cycle@)),
            final(self)@ == old(self)@.after_flip(tags(cycle@)),
    {
        proof {
            use_type_invariant(&*self);
        }
        let Some(flip) = self.planned(cycle) else {
            return None;
        };
        proof {
            lemma_the_tail_holds_the_word(self@.entries);
        }
        let mut entries: Vec<Entry<T>> = Vec::new();
        std::mem::swap(&mut entries, &mut self.entries);
        let ghost before = viewed(entries@);
        let len: usize = entries.len();
        let mut index: usize = len - flip.count;
        while index < len
            invariant
                len == entries@.len() == before.len(),
                flip.count <= len,
                len - flip.count <= index <= len,
                forall|i: int|
                    0 <= i < len ==> #[trigger] viewed(entries@)[i] == if len - flip.count <= i
                        < index {
                        EntryView { tag: flip.target@, ..before[i] }
                    } else {
                        before[i]
                    },
            decreases len - index,
        {
            let ghost unturned = entries@;
            assert(viewed(unturned)[index as int] == before[index as int]);
            entries[index].tag = flip.target.clone();
            assert forall|i: int| 0 <= i < len && i != index implies #[trigger] viewed(
                entries@,
            )[i] == viewed(unturned)[i] by {}
            index += 1;
        }
        self.entries = entries;
        self.last = Marker::Flipped;
        Some(flip)
    }

    /// Returns the payloads of the last `count` keystrokes, in the order they were typed.
    pub fn last(&self, count: usize) -> (payloads: Vec<&T>)
        ensures
            payloads@.len() == if count <= self@.entries.len() {
                count as nat
            } else {
                self@.entries.len()
            },
            forall|i: int|
                0 <= i < payloads@.len() ==> *(#[trigger] payloads@[i]) == self@.entries[i
                    + self@.entries.len() - payloads@.len()].payload,
    {
        let len: usize = self.entries.len();
        let start: usize = if count <= len {
            len - count
        } else {
            0
        };
        let mut payloads: Vec<&T> = Vec::new();
        let mut index: usize = start;
        while index < len
            invariant
                start <= index <= len,
                len == self.entries@.len(),
                payloads@.len() == index - start,
                forall|i: int|
                    0 <= i < payloads@.len() ==> *(#[trigger] payloads@[i]) == self@.entries[i
                        + start].payload,
            decreases len - index,
        {
            payloads.push(&self.entries[index].payload);
            index += 1;
        }
        payloads
    }

    fn start(&self) -> (start: usize)
        requires
            self@.entries.len() > 0,
        ensures
            start == self@.covered_from(),
            start < self@.entries.len(),
    {
        proof {
            lemma_the_tail_holds_the_word(self@.entries);
        }
        let tail: usize = tail_of(&self.entries);
        match self.last {
            Marker::Typed => word_of(&self.entries, tail),
            Marker::Flipped => tail,
        }
    }
}

fn tail_of<T>(entries: &Vec<Entry<T>>) -> (tail: usize)
    ensures
        tail == tail_start(viewed(entries@)),
{
    let ghost all = viewed(entries@);
    let mut start: usize = entries.len();
    assert(all.take(start as int) == all);
    while start > 0
        invariant
            all == viewed(entries@),
            start <= all.len(),
            tail_start(all) == tail_start(all.take(start as int)),
        decreases start,
    {
        let ghost head = all.take(start as int);
        start -= 1;
        assert(head.drop_last() == all.take(start as int));
        match entries[start].run {
            Run::Start => {
                return start;
            },
            Run::Same => {},
        }
    }
    0
}

fn word_of<T>(entries: &Vec<Entry<T>>, tail: usize) -> (word: usize)
    requires
        tail == tail_start(viewed(entries@)),
        tail <= entries@.len(),
    ensures
        word == word_start(viewed(entries@)),
{
    let letters_end: usize = back(entries, Kind::Space, entries.len(), tail);
    back(entries, Kind::Letter, letters_end, tail)
}

fn back<T>(entries: &Vec<Entry<T>>, kind: Kind, from: usize, floor: usize) -> (start: usize)
    requires
        floor <= from <= entries@.len(),
    ensures
        floor <= start <= from,
        start == back_over(viewed(entries@), kind, from as int, floor as int),
{
    let mut start: usize = from;
    while start > floor && entries[start - 1].kind == kind
        invariant
            floor <= start <= from <= entries@.len(),
            back_over(viewed(entries@), kind, from as int, floor as int) == back_over(
                viewed(entries@),
                kind,
                start as int,
                floor as int,
            ),
        decreases start,
    {
        start -= 1;
    }
    start
}

proof fn lemma_back_over_stays_within<T>(
    entries: Seq<EntryView<T>>,
    kind: Kind,
    from: int,
    floor: int,
)
    requires
        floor <= from,
    ensures
        floor <= back_over(entries, kind, from, floor) <= from,
    decreases from - floor,
{
    if from > floor && entries[from - 1].kind == kind {
        lemma_back_over_stays_within(entries, kind, from - 1, floor);
    }
}

proof fn lemma_tail_stays_within<T>(entries: Seq<EntryView<T>>)
    requires
        entries.len() > 0,
    ensures
        0 <= tail_start(entries) < entries.len(),
        entries[tail_start(entries)].starts_run || tail_start(entries) == 0,
        forall|i: int|
            tail_start(entries) < i < entries.len() ==> !(#[trigger] entries[i]).starts_run,
    decreases entries.len(),
{
    let shorter = entries.drop_last();
    if !entries.last().starts_run && shorter.len() > 0 {
        lemma_tail_stays_within(shorter);
        assert forall|i: int| tail_start(entries) < i < entries.len() implies !(
        #[trigger] entries[i]).starts_run by {
            if i < shorter.len() {
                assert(shorter[i] == entries[i]);
            }
        }
        assert(shorter[tail_start(shorter)] == entries[tail_start(entries)]);
    } else if shorter.len() == 0 {
        assert(tail_start(shorter) == 0);
    }
}

proof fn lemma_the_tail_holds_the_word<T>(entries: Seq<EntryView<T>>)
    requires
        entries.len() > 0,
    ensures
        0 <= tail_start(entries) <= word_start(entries) < entries.len(),
{
    let len = entries.len() as int;
    let tail = tail_start(entries);
    lemma_tail_stays_within(entries);
    lemma_back_over_stays_within(entries, Kind::Space, len, tail);
    let letters_end = back_over(entries, Kind::Space, len, tail);
    lemma_back_over_stays_within(entries, Kind::Letter, letters_end, tail);
    if entries.last().kind == Kind::Space {
        lemma_back_over_stays_within(entries, Kind::Space, len - 1, tail);
    } else {
        assert(letters_end == len);
        lemma_back_over_stays_within(entries, Kind::Letter, len - 1, tail);
    }
}

proof fn lemma_tail_starts_at<T>(entries: Seq<EntryView<T>>, i: int)
    requires
        0 <= i < entries.len(),
        entries[i].starts_run || i == 0,
        forall|j: int| i < j < entries.len() ==> !(#[trigger] entries[j]).starts_run,
    ensures
        tail_start(entries) == i,
{
    lemma_tail_stays_within(entries);
    if tail_start(entries) < i {
        assert(!entries[i].starts_run);
    }
}

/// The history never holds more than [`CAP`] keystrokes, whatever happens to it.
pub proof fn the_history_stays_within_its_cap<T>(
    history: HistoryView<T>,
    kind: Kind,
    tag: Option<Seq<char>>,
    payload: T,
    cycle: Seq<Seq<char>>,
)
    requires
        history.entries.len() <= CAP,
    ensures
        history.after_record(kind, tag, payload).entries.len() <= CAP,
        history.after_erase().entries.len() <= CAP,
        history.after_flip(cycle).entries.len() <= CAP,
{
}

/// Whether the keystrokes from `from` on are letters up to `letters_end` and spaces after it.
pub open spec fn letters_then_spaces<T>(
    entries: Seq<EntryView<T>>,
    from: int,
    letters_end: int,
) -> bool {
    &&& from <= letters_end <= entries.len()
    &&& forall|i: int| from <= i < letters_end ==> (#[trigger] entries[i]).kind == Kind::Letter
    &&& forall|i: int|
        letters_end <= i < entries.len() ==> (#[trigger] entries[i]).kind == Kind::Space
}

/// The last word is the letters back to a space or to where the run starts, with the spaces that
/// follow. It starts with a letter unless the run holds nothing but spaces.
pub proof fn the_word_is_the_letters_and_the_spaces_after_them<T>(entries: Seq<EntryView<T>>)
    requires
        entries.len() > 0,
    ensures
        0 <= tail_start(entries) <= word_start(entries) < entries.len(),
        word_start(entries) == tail_start(entries) || entries[word_start(entries) - 1].kind
            == Kind::Space,
        entries[word_start(entries)].kind == Kind::Letter || (word_start(entries) == tail_start(
            entries,
        ) && forall|i: int|
            tail_start(entries) <= i < entries.len() ==> (#[trigger] entries[i]).kind
                == Kind::Space),
        exists|letters_end: int|
            letters_then_spaces(entries, word_start(entries), letters_end),
{
    let len = entries.len() as int;
    let tail = tail_start(entries);
    lemma_the_tail_holds_the_word(entries);
    lemma_back_over_covers(entries, Kind::Space, len, tail);
    let letters_end = back_over(entries, Kind::Space, len, tail);
    lemma_back_over_covers(entries, Kind::Letter, letters_end, tail);
    assert(letters_then_spaces(entries, word_start(entries), letters_end));
}

proof fn lemma_back_over_covers<T>(
    entries: Seq<EntryView<T>>,
    kind: Kind,
    from: int,
    floor: int,
)
    requires
        0 <= floor <= from <= entries.len(),
    ensures
        floor <= back_over(entries, kind, from, floor) <= from,
        forall|i: int|
            back_over(entries, kind, from, floor) <= i < from ==> (#[trigger] entries[i]).kind
                == kind,
        back_over(entries, kind, from, floor) == floor || entries[back_over(
            entries,
            kind,
            from,
            floor,
        ) - 1].kind != kind,
    decreases from - floor,
{
    if from > floor && entries[from - 1].kind == kind {
        lemma_back_over_covers(entries, kind, from - 1, floor);
    }
}

/// A flip covers at least one keystroke and never reaches past the run: between its first
/// keystroke and its last the layout never changed under the fingers.
pub proof fn a_flip_never_reaches_past_its_run<T>(
    history: HistoryView<T>,
    cycle: Seq<Seq<char>>,
)
    requires
        history.plan(cycle) is Some,
    ensures
        1 <= history.plan(cycle)->0.count <= history.entries.len() - tail_start(history.entries)
            <= history.entries.len(),
        forall|i: int|
            history.entries.len() - history.plan(cycle)->0.count < i < history.entries.len()
                ==> !(#[trigger] history.entries[i]).starts_run,
{
    lemma_the_tail_holds_the_word(history.entries);
    lemma_tail_stays_within(history.entries);
}

/// There is something to flip exactly where anything was typed and the cycle has a layout, and the
/// layout to retype in is one of the cycle.
pub proof fn anything_typed_can_be_flipped<T>(history: HistoryView<T>, cycle: Seq<Seq<char>>)
    ensures
        history.plan(cycle) is Some <==> history.entries.len() > 0 && cycle.len() > 0,
        history.plan(cycle) matches Some(flip) ==> cycle.contains(flip.target),
{
    if history.entries.len() > 0 {
        crate::cycle::the_next_layout_is_one_of_the_cycle(
            cycle,
            Some(history.entries[history.covered_from()].tag),
        );
    }
}

/// A flip only changes the layout the covered keystrokes show in: no keystroke is lost, none moves,
/// and what replays each of them and where the runs start stay as they were.
pub proof fn a_flip_keeps_the_keystrokes<T>(history: HistoryView<T>, cycle: Seq<Seq<char>>)
    ensures
        history.after_flip(cycle).entries.len() == history.entries.len(),
        forall|i: int|
            0 <= i < history.entries.len() ==> {
                &&& (#[trigger] history.after_flip(cycle).entries[i]).kind
                    == history.entries[i].kind
                &&& history.after_flip(cycle).entries[i].starts_run
                    == history.entries[i].starts_run
                &&& history.after_flip(cycle).entries[i].payload == history.entries[i].payload
            },
        history.entries.len() > 0 ==> tail_start(history.after_flip(cycle).entries) == tail_start(
            history.entries,
        ),
{
    let after = history.after_flip(cycle).entries;
    if history.entries.len() > 0 {
        lemma_tail_stays_within(history.entries);
        let tail = tail_start(history.entries);
        assert(after[tail].starts_run == history.entries[tail].starts_run);
        assert forall|j: int| tail < j < after.len() implies !(#[trigger] after[j]).starts_run by {
            assert(!history.entries[j].starts_run);
        }
        lemma_tail_starts_at(after, tail);
    }
}

/// The press after a flip, with nothing typed in between, covers the whole run.
pub proof fn the_press_after_a_flip_covers_the_whole_run<T>(
    history: HistoryView<T>,
    cycle: Seq<Seq<char>>,
)
    requires
        history.plan(cycle) is Some,
    ensures
        history.after_flip(cycle).plan(cycle) matches Some(flip) && flip.count
            == history.entries.len() - tail_start(history.entries),
{
    let after = history.after_flip(cycle);
    a_flip_keeps_the_keystrokes(history, cycle);
    anything_typed_can_be_flipped(history, cycle);
    anything_typed_can_be_flipped(after, cycle);
    lemma_tail_stays_within(history.entries);
}

/// Typing again, or deleting, makes the press after it a word again.
pub proof fn typing_makes_the_next_press_a_word<T>(
    history: HistoryView<T>,
    kind: Kind,
    tag: Option<Seq<char>>,
    payload: T,
)
    ensures
        ({
            let typed = history.after_record(kind, tag, payload);
            typed.covered_from() == word_start(typed.entries)
        }),
        history.entries.len() > 0 ==> history.after_erase().covered_from() == word_start(
            history.after_erase().entries,
        ),
{
}

/// With two layouts, the press after a flip of the whole run carries it back.
pub proof fn the_press_after_a_flip_of_the_run_carries_it_back<T>(
    history: HistoryView<T>,
    cycle: Seq<Seq<char>>,
)
    requires
        history.entries.len() > 0,
        history.flipped,
        cycle.len() == 2,
        cycle[0] != cycle[1],
        cycle.contains(history.entries[tail_start(history.entries)].tag),
    ensures
        history.after_flip(cycle).plan(cycle) == Some(
            FlipView {
                count: (history.entries.len() - tail_start(history.entries)) as nat,
                target: history.entries[tail_start(history.entries)].tag,
            },
        ),
{
    let tail = tail_start(history.entries);
    let shown = history.entries[tail].tag;
    lemma_tail_stays_within(history.entries);
    a_flip_keeps_the_keystrokes(history, cycle);
    anything_typed_can_be_flipped(history, cycle);
    let i = choose|i: int| 0 <= i < cycle.len() && cycle[i] == shown;
    crate::cycle::the_cycle_is_walked_in_order(cycle, i);
    crate::cycle::the_cycle_is_walked_in_order(cycle, 1 - i);
    assert(history.after_flip(cycle).entries[tail].tag == cycle[1 - i]);
}

/// Whatever the cycle, the first press flips the last word and the next one the whole run into
/// that same layout, and the press after those moves the whole run one layout further: the layout
/// is always counted from the one the run was typed in.
pub proof fn the_whole_run_follows_its_last_word<T>(
    history: HistoryView<T>,
    cycle: Seq<Seq<char>>,
)
    requires
        !history.flipped,
        history.entries.len() > 0,
        cycle.len() > 0,
        tail_start(history.entries) < word_start(history.entries),
        history.entries[word_start(history.entries)].tag == history.entries[tail_start(
            history.entries,
        )].tag,
    ensures
        ({
            let first = history.after_flip(cycle);
            let second = first.after_flip(cycle);
            let len = history.entries.len();
            let tail = tail_start(history.entries);
            let target = next_tag(cycle, Some(history.entries[tail].tag))->0;
            let run = (len - tail) as nat;
            &&& history.plan(cycle) == Some(
                FlipView { count: (len - word_start(history.entries)) as nat, target },
            )
            &&& first.plan(cycle) == Some(FlipView { count: run, target })
            &&& forall|i: int|
                tail <= i < len ==> (#[trigger] second.entries[i]).tag == target
            &&& second.plan(cycle) == Some(
                FlipView { count: run, target: next_tag(cycle, Some(target))->0 },
            )
        }),
{
    let tail = tail_start(history.entries);
    let first = history.after_flip(cycle);
    let second = first.after_flip(cycle);
    let target = next_tag(cycle, Some(history.entries[tail].tag))->0;
    lemma_the_tail_holds_the_word(history.entries);
    crate::cycle::the_next_layout_is_one_of_the_cycle(cycle, Some(history.entries[tail].tag));
    crate::cycle::the_next_layout_is_one_of_the_cycle(cycle, Some(target));
    a_flip_keeps_the_keystrokes(history, cycle);
    assert(first.entries[tail] == history.entries[tail]);
    a_flip_keeps_the_keystrokes(first, cycle);
    assert(second.entries[tail].tag == target);
}

/// A sentence typed in one of two layouts flips its last word first, then as a whole, then back:
/// the third press leaves every keystroke showing in the layout it was typed in.
pub proof fn a_sentence_flips_word_first_then_whole_then_back<T>(
    history: HistoryView<T>,
    cycle: Seq<Seq<char>>,
    typed_in: Seq<char>,
)
    requires
        !history.flipped,
        history.entries.len() > 0,
        tail_start(history.entries) < word_start(history.entries),
        cycle.len() == 2,
        cycle[0] != cycle[1],
        cycle.contains(typed_in),
        forall|i: int|
            tail_start(history.entries) <= i < history.entries.len() ==> (
            #[trigger] history.entries[i]).tag == typed_in,
    ensures
        ({
            let first = history.after_flip(cycle);
            let second = first.after_flip(cycle);
            let third = second.after_flip(cycle);
            let len = history.entries.len();
            let other = next_tag(cycle, Some(typed_in))->0;
            let run = (len - tail_start(history.entries)) as nat;
            &&& other != typed_in
            &&& history.plan(cycle) == Some(
                FlipView { count: (len - word_start(history.entries)) as nat, target: other },
            )
            &&& first.plan(cycle) == Some(FlipView { count: run, target: other })
            &&& second.plan(cycle) == Some(FlipView { count: run, target: typed_in })
            &&& third.entries == history.entries
        }),
{
    let tail = tail_start(history.entries);
    let word = word_start(history.entries);
    let first = history.after_flip(cycle);
    let second = first.after_flip(cycle);
    let third = second.after_flip(cycle);
    lemma_the_tail_holds_the_word(history.entries);
    let i = choose|i: int| 0 <= i < cycle.len() && cycle[i] == typed_in;
    crate::cycle::the_cycle_is_walked_in_order(cycle, i);
    crate::cycle::the_cycle_is_walked_in_order(cycle, 1 - i);
    let other = cycle[1 - i];
    assert(history.entries[word].tag == typed_in);
    a_flip_keeps_the_keystrokes(history, cycle);
    assert(first.entries[tail] == history.entries[tail]);
    a_flip_keeps_the_keystrokes(first, cycle);
    assert(second.entries[tail].tag == other);
    assert(third.entries =~= history.entries);
}

/// A keystroke typed in another layout than the one before it starts a run of its own.
pub proof fn a_layout_change_starts_a_run<T>(
    history: HistoryView<T>,
    kind: Kind,
    tag: Seq<char>,
    payload: T,
)
    requires
        history.entries.len() > 0 ==> history.entries.last().tag != tag,
    ensures
        ({
            let typed = history.after_record(kind, Some(tag), payload).entries;
            tail_start(typed) == typed.len() - 1
        }),
{
    let typed = history.after_record(kind, Some(tag), payload).entries;
    lemma_tail_starts_at(typed, typed.len() - 1);
}

/// A keystroke typed in the layout the one before it shows in continues its run, which loses its
/// oldest keystroke only where that is the oldest of all and makes room.
pub proof fn a_keystroke_in_the_same_layout_continues_the_run<T>(
    history: HistoryView<T>,
    kind: Kind,
    tag: Seq<char>,
    payload: T,
)
    requires
        history.entries.len() > 0,
        history.entries.last().tag == tag,
    ensures
        tail_start(history.after_record(kind, Some(tag), payload).entries) == if history.entries.len()
            == CAP && tail_start(history.entries) > 0 {
            tail_start(history.entries) - 1
        } else {
            tail_start(history.entries)
        },
{
    let typed = history.after_record(kind, Some(tag), payload).entries;
    let tail = tail_start(history.entries);
    let dropped: int = if history.entries.len() == CAP {
        1
    } else {
        0
    };
    let start = if tail >= dropped {
        tail - dropped
    } else {
        0
    };
    lemma_tail_stays_within(history.entries);
    assert forall|j: int| start < j < typed.len() implies !(#[trigger] typed[j]).starts_run by {
        if j < typed.len() - 1 {
            assert(typed[j] == history.entries[j + dropped]);
        }
    }
    if start < typed.len() - 1 {
        assert(typed[start] == history.entries[start + dropped]);
    }
    lemma_tail_starts_at(typed, start);
}

/// Delete takes back exactly what the last keystroke added.
pub proof fn deleting_takes_back_the_last_keystroke<T>(
    history: HistoryView<T>,
    kind: Kind,
    tag: Seq<char>,
    payload: T,
)
    requires
        history.entries.len() < CAP,
    ensures
        history.after_record(kind, Some(tag), payload).after_erase().entries == history.entries,
{
}

/// What an event asks of the history, key by key. A click, a key-down with Command or Control, and
/// one of Return, Enter, Tab, Escape, Home, Page Up, End, Page Down, forward delete and the arrows
/// forget it; delete takes one keystroke back; a signal key, a key that comes up and a modifier
/// leave it alone; and every other key-down is recorded, the space bar as a space.
pub proof fn every_key_asks_its_own_thing_of_the_history(event: KeyEvent)
    ensures
        event.kind == EventKind::MouseDown ==> asked_of_history(event) == Action::Clear,
        event.kind == EventKind::Up || event.kind == EventKind::Flags ==> asked_of_history(event)
            == Action::Ignore,
        event.kind == EventKind::Down ==> {
            let chord = event.flags & 0x10_0000 != 0 || event.flags & 0x4_0000 != 0;
            let key = event.keycode;
            let caret = key == 36 || key == 76 || key == 48 || key == 53 || key == 115 || key
                == 116 || key == 119 || key == 121 || key == 117 || key == 123 || key == 124 || key
                == 125 || key == 126;
            asked_of_history(event) == if chord || caret {
                Action::Clear
            } else if key == 51 {
                Action::Erase
            } else if key == 80 || key == 79 {
                Action::Ignore
            } else if key == 49 {
                Action::Record(Kind::Space)
            } else {
                Action::Record(Kind::Letter)
            }
        },
        forall|keycode: u16| #[trigger]
            moves_the_caret(keycode) <==> keycode == 36 || keycode == 76 || keycode == 48 || keycode
                == 53 || keycode == 115 || keycode == 116 || keycode == 119 || keycode == 121
                || keycode == 117 || keycode == 123 || keycode == 124 || keycode == 125 || keycode
                == 126,
{
    lemma_either_flag_counts(event.flags);
}

proof fn lemma_either_flag_counts(flags: u64)
    ensures
        flags & (COMMAND | CONTROL) != 0 <==> flags & 0x10_0000 != 0 || flags & 0x4_0000 != 0,
{
    assert(flags & (0x10_0000u64 | 0x4_0000u64) != 0 <==> flags & 0x10_0000u64 != 0 || flags
        & 0x4_0000u64 != 0) by (bit_vector);
}

/// A keystroke typed in a layout a tag names is recorded last, with its kind, that tag and what
/// replays it, and starts a run where the keystroke before it shows in another layout or there is
/// none. The keystrokes before it stay as they were, but for the oldest of 512, which makes room.
/// One typed in a layout no tag names forgets everything.
pub proof fn a_keystroke_is_recorded_last<T>(
    history: HistoryView<T>,
    kind: Kind,
    tag: Option<Seq<char>>,
    payload: T,
)
    ensures
        ({
            let after = history.after_record(kind, tag, payload);
            let before = history.entries;
            &&& !after.flipped
            &&& tag is None ==> after.entries.len() == 0
            &&& tag matches Some(tag) ==> {
                &&& after.entries.len() > 0
                &&& after.entries.last().kind == kind
                &&& after.entries.last().tag == tag
                &&& after.entries.last().payload == payload
                &&& after.entries.last().starts_run <==> before.len() == 0 || before.last().tag
                    != tag
                &&& before.len() != 512 ==> after.entries.drop_last() == before
                &&& before.len() == 512 ==> after.entries.drop_last() == before.drop_first()
            }
        }),
{
    let after = history.after_record(kind, tag, payload);
    if tag is Some {
        if history.entries.len() == 512 {
            assert(after.entries.drop_last() =~= history.entries.drop_first());
        } else {
            assert(after.entries.drop_last() =~= history.entries);
        }
    }
}

/// Delete drops the last keystroke and keeps all the others, and does nothing where there is none.
pub proof fn delete_drops_the_last_keystroke_only<T>(history: HistoryView<T>)
    ensures
        history.entries.len() == 0 ==> history.after_erase() == history,
        history.entries.len() > 0 ==> history.after_erase().entries == history.entries.drop_last()
            && !history.after_erase().flipped,
        HistoryView::<T>::nothing().entries.len() == 0,
        !HistoryView::<T>::nothing().flipped,
{
}

/// A press after something was typed covers the last word of the run: letters, then the spaces that
/// follow them, back to the space before them or to where the layout changed under the fingers. A
/// run of nothing but spaces is covered as a whole.
pub proof fn the_first_press_covers_the_last_word<T>(
    history: HistoryView<T>,
    cycle: Seq<Seq<char>>,
)
    requires
        !history.flipped,
        history.plan(cycle) is Some,
    ensures
        ({
            let entries = history.entries;
            let len = entries.len();
            let start = len - history.plan(cycle)->0.count;
            let run_starts = start == 0 || entries[start].starts_run;
            &&& 0 <= start < len
            &&& forall|i: int| start < i < len ==> !(#[trigger] entries[i]).starts_run
            &&& run_starts || entries[start - 1].kind == Kind::Space
            &&& forall|i: int, j: int|
                start <= i < j < len && (#[trigger] entries[i]).kind == Kind::Space ==> (
                #[trigger] entries[j]).kind == Kind::Space
            &&& entries[start].kind == Kind::Letter || (run_starts && forall|i: int|
                start <= i < len ==> (#[trigger] entries[i]).kind == Kind::Space)
        }),
{
    let entries = history.entries;
    let len = entries.len();
    lemma_the_tail_holds_the_word(entries);
    lemma_tail_stays_within(entries);
    the_word_is_the_letters_and_the_spaces_after_them(entries);
    let start = word_start(entries);
    let letters_end = choose|letters_end: int| letters_then_spaces(entries, start, letters_end);
    assert(letters_then_spaces(entries, start, letters_end));
    assert forall|i: int, j: int|
        start <= i < j < len && (#[trigger] entries[i]).kind == Kind::Space implies (
    #[trigger] entries[j]).kind == Kind::Space by {
        assert(i >= letters_end);
    }
}

/// The press after a flip covers everything since the layout last changed under the fingers.
pub proof fn the_press_after_a_flip_reaches_back_to_the_last_change<T>(
    history: HistoryView<T>,
    cycle: Seq<Seq<char>>,
)
    requires
        history.flipped,
        history.plan(cycle) is Some,
    ensures
        ({
            let entries = history.entries;
            let len = entries.len();
            let start = len - history.plan(cycle)->0.count;
            &&& 0 <= start < len
            &&& forall|i: int| start < i < len ==> !(#[trigger] entries[i]).starts_run
            &&& start == 0 || entries[start].starts_run
        }),
{
    lemma_tail_stays_within(history.entries);
}

/// What is covered goes to the layout right behind the one its first keystroke shows in, wrapping
/// at the end of the cycle.
pub proof fn a_flip_goes_one_layout_further<T>(
    history: HistoryView<T>,
    cycle: Seq<Seq<char>>,
    i: int,
)
    requires
        history.plan(cycle) is Some,
        0 <= i < cycle.len(),
        forall|j: int| 0 <= j < i ==> #[trigger] cycle[j] != cycle[i],
        history.entries[history.entries.len() - history.plan(cycle)->0.count].tag == cycle[i],
    ensures
        history.plan(cycle)->0.target == cycle[(i + 1) % (cycle.len() as int)],
{
    lemma_the_tail_holds_the_word(history.entries);
    crate::cycle::the_next_layout_stands_right_behind(cycle, i);
}

/// What shows in a layout the cycle does not carry goes to the first entry.
pub proof fn a_flip_leads_into_the_cycle<T>(history: HistoryView<T>, cycle: Seq<Seq<char>>)
    requires
        history.plan(cycle) is Some,
        forall|i: int|
            0 <= i < cycle.len() ==> history.entries[history.entries.len() - history.plan(
                cycle,
            )->0.count].tag != #[trigger] cycle[i],
    ensures
        history.plan(cycle)->0.target == cycle[0],
{
    let shown = history.entries[history.covered_from()].tag;
    lemma_the_tail_holds_the_word(history.entries);
    anything_typed_can_be_flipped(history, cycle);
    assert forall|i: int| 0 <= i < cycle.len() implies Some(shown) != Some(#[trigger] cycle[i]) by {}
    crate::cycle::anything_outside_the_cycle_goes_to_its_first_entry(cycle, Some(shown));
}

/// After a flip exactly the covered keystrokes show in the layout they were flipped to. Nothing
/// else about any keystroke changes, and without a plan nothing changes at all.
pub proof fn a_flip_turns_over_what_it_covers<T>(history: HistoryView<T>, cycle: Seq<Seq<char>>)
    ensures
        history.plan(cycle) is None ==> history.after_flip(cycle) == history,
        history.plan(cycle) matches Some(flip) ==> {
            let after = history.after_flip(cycle);
            let len = history.entries.len();
            &&& after.flipped
            &&& after.entries.len() == len
            &&& flip.count <= len
            &&& forall|i: int|
                0 <= i < len - flip.count ==> #[trigger] after.entries[i] == history.entries[i]
            &&& forall|i: int|
                len - flip.count <= i < len ==> {
                    &&& (#[trigger] after.entries[i]).tag == flip.target
                    &&& after.entries[i].kind == history.entries[i].kind
                    &&& after.entries[i].starts_run == history.entries[i].starts_run
                    &&& after.entries[i].payload == history.entries[i].payload
                }
        },
{
    if history.entries.len() > 0 {
        lemma_the_tail_holds_the_word(history.entries);
    }
}

/// An optional flip is what the flip says.
pub proof fn a_flip_is_what_it_says(flip: Flip)
    ensures
        flip_text(Some(flip)) == Some(
            FlipView { count: flip.count as nat, target: flip.target.0@ },
        ),
        flip_text(None) is None,
{
}

} // verus!
