//! The binary this process runs from, watched so an upgrade replaces the daemon instead of
//! outliving it.
//!
//! launchd keeps the agent alive on the path state of the program it started, so a daemon that
//! stops once its binary was replaced is started again from the new one. The daemon polls what is
//! at the path and asks [`Executable::swapped`] whether it still is what it started from.

use vstd::prelude::*;

use crate::clock::{Duration, SECOND};

verus! {

/// How often the running binary is checked for having been replaced under the daemon.
pub const POLL: Duration = 2 * SECOND;

/// Which file stands at a path: two readings name the same file when both numbers agree.
#[derive(Debug, Clone, Copy, PartialEq, Eq, Structural)]
pub struct Identity {
    /// The device the file is on.
    pub device: u64,
    /// The inode of the file on its device.
    pub inode: u64,
}

/// The binary this process is running from, as it was found at startup.
#[derive(Debug, PartialEq, Eq)]
pub struct Executable {
    path: String,
    identity: Identity,
}

impl Clone for Executable {
    fn clone(&self) -> (copy: Executable)
        ensures
            copy == *self,
    {
        Executable { path: self.path.clone(), identity: self.identity }
    }
}

impl Executable {
    /// The path the binary was found at.
    pub closed spec fn found_at(self) -> Seq<char> {
        self.path@
    }

    /// The file that stood there.
    pub closed spec fn started_from(self) -> Identity {
        self.identity
    }

    /// Returns the running binary, given its path and the file that stands there, or nothing when
    /// either could not be read.
    pub fn current(path: Option<String>, identity: Option<Identity>) -> (executable: Option<
        Executable,
    >)
        ensures
            executable is Some <==> path is Some && identity is Some,
            executable matches Some(executable) ==> executable.found_at() == path->0@
                && executable.started_from() == identity->0,
    {
        let Some(path) = path else {
            return None;
        };
        let Some(identity) = identity else {
            return None;
        };
        Some(Executable { path, identity })
    }

    /// Returns the path the binary was found at, which is the one the agent names.
    pub fn path(&self) -> (path: &str)
        ensures
            path@ == self.found_at(),
    {
        self.path.as_str()
    }

    /// Returns whether the file at that path is no longer the one this process started from, given
    /// the file that stands there now.
    ///
    /// A removed binary counts as replaced: an upgrade that unpacks a new bundle is a new inode at
    /// the same path, and a moment where nothing is there at all is the same upgrade seen earlier.
    pub fn swapped(&self, current: Option<Identity>) -> (swapped: bool)
        ensures
            swapped <==> current != Some(self.started_from()),
    {
        replaced(self.identity, current)
    }
}

fn replaced(original: Identity, current: Option<Identity>) -> (replaced: bool)
    ensures
        replaced <==> current != Some(original),
{
    match current {
        Some(current) => current != original,
        None => true,
    }
}

} // verus!
