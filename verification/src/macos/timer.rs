//! How often a run loop timer fires, and what can go wrong with it.
//!
//! A timer that never repeats becomes invalid the moment it fires, so a quiet timer is one whose
//! interval is a day and whose next fire date is pushed that far out; arming it is a fire date,
//! not a new timer.

use vstd::prelude::*;

use crate::clock::{Duration, SECOND};

verus! {

/// How far out the next fire of a quiet timer is: a day.
pub const QUIET: Duration = 86_400 * SECOND;

/// Whether a timer waits to be armed, or fires on its own for as long as it lives.
#[derive(Debug, Clone, Copy, PartialEq, Eq, Structural)]
pub enum Repeat {
    /// Stays quiet until it is armed for a moment.
    Never,
    /// Fires every interval, the first time one interval from now.
    Every(Duration),
}

impl Repeat {
    /// Returns the interval the timer is installed with.
    pub fn interval(self) -> (interval: Duration)
        ensures
            interval == match self {
                Repeat::Never => QUIET,
                Repeat::Every(interval) => interval,
            },
    {
        match self {
            Repeat::Never => QUIET,
            Repeat::Every(interval) => interval,
        }
    }
}

/// What can go wrong when installing a run loop timer.
#[derive(Debug, Clone, Copy, PartialEq, Eq, Structural)]
pub enum TimerError {
    /// Core Foundation refused to create the timer.
    NotCreated,
    /// This thread has no run loop, so the timer would never fire.
    NoRunLoop,
}

impl TimerError {
    /// The error in words.
    pub open spec fn words(self) -> Seq<char> {
        match self {
            TimerError::NotCreated => "creating the run loop timer failed"@,
            TimerError::NoRunLoop => "this thread has no run loop, so a timer on it would never fire"@,
        }
    }

    /// Returns the error in words.
    pub fn to_string(&self) -> (printed: String)
        ensures
            printed@ == self.words(),
    {
        match self {
            TimerError::NotCreated => "creating the run loop timer failed".to_string(),
            TimerError::NoRunLoop =>
                "this thread has no run loop, so a timer on it would never fire".to_string(),
        }
    }
}

} // verus!
