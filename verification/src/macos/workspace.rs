//! The bundle id an application is known by.

use vstd::prelude::*;

use crate::text::{Duplicate, Text};

verus! {

/// The bundle identifier of an application, which is what the configuration pins a layout to.
#[derive(Debug, PartialEq, Eq, PartialOrd, Ord, Hash)]
pub struct BundleId(pub String);

impl View for BundleId {
    type V = Seq<char>;

    open spec fn view(&self) -> Seq<char> {
        self.0@
    }
}

impl Text for BundleId {
    open spec fn text(&self) -> Seq<char> {
        self@
    }

    fn as_text(&self) -> (text: &str) {
        self.0.as_str()
    }

    fn copied_key(&self) -> (copy: BundleId) {
        self.clone()
    }
}

impl Duplicate for BundleId {
    fn duplicate(&self) -> (copy: BundleId) {
        self.clone()
    }
}

impl Clone for BundleId {
    fn clone(&self) -> (copy: BundleId)
        ensures
            copy == *self,
    {
        BundleId(self.0.clone())
    }
}

impl BundleId {
    /// Returns the bundle id as it is printed, which is the text it carries.
    pub fn to_string(&self) -> (printed: String)
        ensures
            printed@ == self@,
    {
        self.0.clone()
    }

    /// Returns whether the two spell the same.
    pub fn same(&self, other: &BundleId) -> (same: bool)
        ensures
            same <==> self@ == other@,
    {
        self.0 == other.0
    }
}

} // verus!
