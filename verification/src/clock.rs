//! The clock the daemon reads, as plain nanoseconds.
//!
//! Nothing here asks the machine what time it is: a moment is handed in by whoever runs the
//! daemon, which is what lets a test drive every deadline by hand.

use vstd::prelude::*;

verus! {

/// A length of time, in nanoseconds.
pub type Duration = u64;

/// A moment, in nanoseconds since the clock started.
pub type Instant = u64;

/// One millisecond, which is what every deadline here is counted in.
pub const MILLISECOND: Duration = 1_000_000;

/// One second.
pub const SECOND: Duration = 1_000_000_000;

} // verus!
