//! Which application the keyboard goes to, and when that counts as a move.
//!
//! A launcher shows its panel without activating: the panel takes the keyboard while the workspace
//! still names the window behind it. Accessibility's focused application follows the keyboard
//! instead, but nothing announces it, so it is polled and every reading is held against the last.

use vstd::prelude::*;

use super::workspace::BundleId;
use crate::clock::{Duration, MILLISECOND};

verus! {

/// How often the daemon asks where the keyboard goes.
pub const POLL: Duration = 50 * MILLISECOND;

/// The bundle id an optional bundle id stands for, as text.
pub open spec fn app_text(app: Option<BundleId>) -> Option<Seq<char>> {
    match app {
        Some(app) => Some(app@),
        None => None,
    }
}

/// The application a reading says the keyboard moved to: a reading that names another one than
/// the last.
pub open spec fn moved_to(last: Option<Seq<char>>, now: Option<Seq<char>>) -> Option<Seq<char>> {
    if now == last {
        None
    } else {
        now
    }
}

/// Returns the application the keyboard moved to since `last`, if it moved at all.
///
/// An unreadable focus is not a move: the last known application stands until a new one is read.
pub fn moved(last: Option<&BundleId>, now: Option<BundleId>) -> (moved: Option<BundleId>)
    ensures
        app_text(moved) == moved_to(
            match last {
                Some(last) => Some(last@),
                None => None,
            },
            app_text(now),
        ),
        moved is Some ==> moved == now,
{
    let Some(now) = now else {
        return None;
    };
    match last {
        Some(last) => {
            if last.same(&now) {
                return None;
            }
            Some(now)
        },
        None => Some(now),
    }
}

/// The keyboard moved exactly where a reading names an application and not the last one: to that
/// application. A reading that names none is no move.
pub proof fn only_another_application_is_a_move(
    last: Option<Seq<char>>,
    now: Option<Seq<char>>,
)
    ensures
        moved_to(last, now) is Some <==> now is Some && now != last,
        moved_to(last, now) matches Some(app) ==> now == Some(app),
{
}

/// An optional application is what its bundle id spells.
pub proof fn an_application_is_what_its_bundle_id_spells(app: BundleId)
    ensures
        app_text(Some(app)) == Some(app.0@),
        app_text(None) is None,
{
}

} // verus!
