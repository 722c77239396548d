//! Which layout each application gets, as a pure policy over plain data.
//!
//! A pinned application always gets its pin; every other one gets the layout it was last used
//! with, which is recorded when it loses focus and whenever the layout changes while it is in
//! front. Nothing here selects anything: the daemon takes the decision to the barrier first, and
//! only a barrier that accepts it makes the daemon select.

use vstd::prelude::*;

use crate::cycle::tag_text;
use crate::macos::tis::LayoutTag;
use crate::macos::workspace::BundleId;
use crate::ordered::{table, OrderedMap};

verus! {

/// The memory as plain text.
#[verifier::ext_equal]
pub struct MemoryView {
    /// The layout each pinned application always gets.
    pub pins: Map<Seq<char>, Seq<char>>,
    /// The layout each application was last used with.
    pub remembered: Map<Seq<char>, Seq<char>>,
    /// The application that was activated last.
    pub frontmost: Option<Seq<char>>,
}

impl MemoryView {
    /// The memory once `app` was seen using `layout`.
    pub open spec fn after_layout_changed(
        self,
        app: Seq<char>,
        layout: Option<Seq<char>>,
    ) -> MemoryView {
        match layout {
            Some(layout) => MemoryView { remembered: self.remembered.insert(app, layout), ..self },
            None => self,
        }
    }

    /// The memory once `app` came to the front while `current` was selected: the application it
    /// takes over from is recorded with that layout.
    pub open spec fn after_activated(
        self,
        app: Seq<char>,
        current: Option<Seq<char>>,
    ) -> MemoryView {
        let recorded = match self.frontmost {
            Some(losing) => self.after_layout_changed(losing, current),
            None => self,
        };
        MemoryView { frontmost: Some(app), ..recorded }
    }

    /// The layout `app` gets: its pin, or else the one it was last used with.
    pub open spec fn decided(self, app: Seq<char>) -> Option<Seq<char>> {
        if self.pins.dom().contains(app) {
            Some(self.pins[app])
        } else if self.remembered.dom().contains(app) {
            Some(self.remembered[app])
        } else {
            None
        }
    }

    /// The layout that has to be selected once `app` came to the front, if any: none where
    /// nothing is known about the application, and none where what it gets is selected already.
    pub open spec fn asked_by(self, app: Seq<char>, current: Option<Seq<char>>) -> Option<
        Seq<char>,
    > {
        let decided = self.after_activated(app, current).decided(app);
        if decided == current {
            None
        } else {
            decided
        }
    }
}

/// The layout each application was last used with, plus the pins that override it.
pub struct Memory {
    pins: OrderedMap<BundleId, LayoutTag>,
    remembered: OrderedMap<BundleId, LayoutTag>,
    frontmost: Option<BundleId>,
}

impl View for Memory {
    type V = MemoryView;

    closed spec fn view(&self) -> MemoryView {
        MemoryView {
            pins: table(self.pins@),
            remembered: table(self.remembered@),
            frontmost: crate::macos::focus::app_text(self.frontmost),
        }
    }
}

impl Memory {
    /// Creates a memory in which `pins` fixes the layout of a bundle id for good.
    pub fn new(pins: OrderedMap<BundleId, LayoutTag>) -> (memory: Memory)
        ensures
            memory@ == (MemoryView {
                pins: table(pins@),
                remembered: Map::empty(),
                frontmost: None,
            }),
    {
        let memory = Memory { pins, remembered: OrderedMap::new(), frontmost: None };
        assert(memory@.remembered =~= Map::empty());
        memory
    }

    /// Takes `app` for the application in front, without recording anything.
    pub fn seed(&mut self, app: BundleId)
        ensures
            final(self)@ == (MemoryView { frontmost: Some(app@), ..old(self)@ }),
    {
        self.frontmost = Some(app);
    }

    /// Records the layout `app` is using now; an unmapped layout records nothing.
    pub fn on_layout_changed(&mut self, app: BundleId, layout: Option<LayoutTag>)
        ensures
            final(self)@ == old(self)@.after_layout_changed(app@, tag_text(layout)),
    {
        let Some(layout) = layout else {
            return;
        };
        self.remembered.insert(app, layout);
    }

    /// Records what the application losing focus was using and returns what `app` needs.
    ///
    /// [`None`] means the daemon must not select anything: either the application is unknown, or
    /// what it wants is already selected, and selecting the selected layout is confirmed by no
    /// notification at all.
    pub fn on_activated(&mut self, app: BundleId, current: Option<LayoutTag>) -> (asked: Option<
        LayoutTag,
    >)
        ensures
            final(self)@ == old(self)@.after_activated(app@, tag_text(current)),
            tag_text(asked) == old(self)@.asked_by(app@, tag_text(current)),
    {
        let mut losing = Some(app.clone());
        std::mem::swap(&mut losing, &mut self.frontmost);
        if let Some(losing) = losing {
            let used = match &current {
                Some(current) => Some(current.clone()),
                None => None,
            };
            self.on_layout_changed(losing, used);
        }
        let Some(decided) = self.decide(&app) else {
            return None;
        };
        if let Some(current) = &current {
            if decided.same(current) {
                return None;
            }
        }
        Some(decided)
    }

    fn decide(&self, app: &BundleId) -> (decided: Option<LayoutTag>)
        ensures
            tag_text(decided) == self@.decided(app@),
    {
        if let Some(pinned) = self.pins.get(app) {
            return Some(pinned.clone());
        }
        let Some(remembered) = self.remembered.get(app) else {
            return None;
        };
        Some(remembered.clone())
    }
}

/// A pinned application gets its pin however it was last used, and nothing that happens later
/// changes a pin.
pub proof fn a_pin_always_wins(
    memory: MemoryView,
    app: Seq<char>,
    other: Seq<char>,
    layout: Option<Seq<char>>,
)
    requires
        memory.pins.dom().contains(app),
    ensures
        memory.decided(app) == Some(memory.pins[app]),
        memory.after_layout_changed(other, layout).decided(app) == Some(memory.pins[app]),
        memory.after_activated(other, layout).decided(app) == Some(memory.pins[app]),
{
}

/// The layout that is selected already is never asked for, and neither is one for an application
/// nothing is known about.
pub proof fn nothing_is_asked_for_twice(
    memory: MemoryView,
    app: Seq<char>,
    current: Option<Seq<char>>,
)
    ensures
        memory.asked_by(app, current) is Some ==> memory.asked_by(app, current) != current,
        memory.after_activated(app, current).decided(app) is None ==> memory.asked_by(
            app,
            current,
        ) is None,
{
}

/// What is recorded for one application leaves every other one alone.
pub proof fn a_record_is_for_one_application_only(
    memory: MemoryView,
    app: Seq<char>,
    layout: Option<Seq<char>>,
    other: Seq<char>,
)
    requires
        other != app,
    ensures
        memory.after_layout_changed(app, layout).decided(other) == memory.decided(other),
        memory.frontmost == Some(app) ==> memory.after_activated(other, layout).decided(other)
            == memory.decided(other),
{
}

/// An application without a pin comes back to the layout it was left with, whatever was selected
/// in between.
pub proof fn an_application_comes_back_to_its_layout(
    memory: MemoryView,
    app: Seq<char>,
    other: Seq<char>,
    left_with: Seq<char>,
    selected: Option<Seq<char>>,
)
    requires
        memory.frontmost == Some(app),
        !memory.pins.dom().contains(app),
        other != app,
        selected != Some(left_with),
    ensures
        memory.after_activated(other, Some(left_with)).asked_by(app, selected) == Some(left_with),
{
}

/// A layout no tag names is recorded for nobody.
pub proof fn an_unnamed_layout_records_nothing(memory: MemoryView, app: Seq<char>)
    ensures
        memory.after_layout_changed(app, None) == memory,
        memory.after_activated(app, None).remembered == memory.remembered,
{
}

/// A pinned application asks for its pin where another layout is selected and for nothing where the
/// pin is selected already, whatever it was last used with and whichever application it takes over
/// from.
pub proof fn a_pinned_application_asks_for_its_pin_only(
    memory: MemoryView,
    app: Seq<char>,
    current: Option<Seq<char>>,
)
    requires
        memory.pins.dom().contains(app),
    ensures
        memory.asked_by(app, current) == if current == Some(memory.pins[app]) {
            None
        } else {
            Some(memory.pins[app])
        },
{
}

/// An application without a pin that takes over from another one asks for the layout it was last
/// used with, and for nothing where that one is selected already or where it was never used.
pub proof fn any_other_application_asks_for_what_it_last_used(
    memory: MemoryView,
    app: Seq<char>,
    current: Option<Seq<char>>,
)
    requires
        !memory.pins.dom().contains(app),
        memory.frontmost != Some(app),
    ensures
        memory.asked_by(app, current) == if memory.remembered.dom().contains(app) && current
            != Some(memory.remembered[app]) {
            Some(memory.remembered[app])
        } else {
            None
        },
{
}

/// An application without a pin that stays in front keeps the layout that is selected; where no tag
/// names that one, it asks for the layout it was last used with.
pub proof fn an_application_that_stays_in_front_keeps_its_layout(
    memory: MemoryView,
    app: Seq<char>,
    current: Option<Seq<char>>,
)
    requires
        !memory.pins.dom().contains(app),
        memory.frontmost == Some(app),
    ensures
        current is Some ==> memory.asked_by(app, current) is None,
        current is None ==> memory.asked_by(app, current) == if memory.remembered.dom().contains(
            app,
        ) {
            Some(memory.remembered[app])
        } else {
            None
        },
{
}

/// An activation puts the application in front, records the layout that is selected for the one it
/// takes over from and for no other, and leaves the pins alone.
pub proof fn an_activation_records_the_application_that_loses_focus(
    memory: MemoryView,
    app: Seq<char>,
    current: Option<Seq<char>>,
)
    ensures
        ({
            let after = memory.after_activated(app, current);
            &&& after.frontmost == Some(app)
            &&& after.pins == memory.pins
            &&& after.remembered == if memory.frontmost is Some && current is Some {
                memory.remembered.insert(memory.frontmost->0, current->0)
            } else {
                memory.remembered
            }
        }),
{
}

/// A layout change is recorded for the application that is told of, and changes nothing else.
pub proof fn a_layout_change_is_recorded(
    memory: MemoryView,
    app: Seq<char>,
    layout: Option<Seq<char>>,
)
    ensures
        ({
            let after = memory.after_layout_changed(app, layout);
            &&& after.frontmost == memory.frontmost
            &&& after.pins == memory.pins
            &&& after.remembered == if layout is Some {
                memory.remembered.insert(app, layout->0)
            } else {
                memory.remembered
            }
        }),
{
}

/// What an application gets is its pin, without one the layout it was last used with, and nothing
/// where there is neither.
pub proof fn an_application_gets_its_pin_or_what_it_last_used(memory: MemoryView, app: Seq<char>)
    ensures
        memory.pins.dom().contains(app) ==> memory.decided(app) == Some(memory.pins[app]),
        !memory.pins.dom().contains(app) && memory.remembered.dom().contains(app)
            ==> memory.decided(app) == Some(memory.remembered[app]),
        memory.decided(app) is None <==> !memory.pins.dom().contains(app)
            && !memory.remembered.dom().contains(app),
{
}

/// Whatever was selected for one application while another had the keyboard, coming back to a
/// pinned one leads to its pin: either it is selected already or it is asked for.
pub proof fn coming_back_to_a_pinned_application_leads_to_its_pin(
    memory: MemoryView,
    app: Seq<char>,
    other: Seq<char>,
    used: Option<Seq<char>>,
    left_with: Option<Seq<char>>,
    selected: Option<Seq<char>>,
)
    requires
        memory.pins.dom().contains(app),
    ensures
        ({
            let back = memory.after_activated(app, used).after_layout_changed(
                app,
                left_with,
            ).after_activated(other, left_with);
            match back.asked_by(app, selected) {
                Some(asked) => asked == memory.pins[app] && selected != Some(asked),
                None => selected == Some(memory.pins[app]),
            }
        }),
{
}

} // verus!
