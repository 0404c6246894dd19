//! Plugins as a manifest lists them.

use std::path::PathBuf;

use vstd::prelude::*;

use crate::plugins::Registry;
use crate::text::{eq_ignore_ascii_case, same_ignoring_ascii_case};

verus! {

/// A plugin entry of the manifest.
#[derive(Debug)]
pub struct Plugin {
    pub source: Source,
    /// Save-as filename.
    pub file: Option<PathBuf>,
}

/// Where a plugin comes from.
#[derive(Debug)]
pub enum Source {
    Registry {
        /// Where to download the plugin from
        registry: Registry,
        /// Unique identifier for the plugin
        id: String,
        /// Target plugin version to install
        version: String,
    },
    Url {
        /// URL to the target plugin JAR
        url: String,
    },
    Local {
        /// Path to the local plugin JAR
        path: PathBuf,
    },
}

/// Case-insensitive plugin name.
#[derive(Debug)]
pub struct Name(String);

impl View for Name {
    type V = Seq<char>;

    /// The name as it was written.
    closed spec fn view(&self) -> Seq<char> {
        self.0@
    }
}

impl Name {
    pub fn new(name: String) -> (res: Name)
        ensures
            res@ == name@,
    {
        Name(name)
    }

    pub fn as_str(&self) -> (s: &str)
        ensures
            s@ == self@,
    {
        self.0.as_str()
    }
}

impl PartialEq for Name {
    /// Names are equal when ASCII letters are compared without regard to case.
    fn eq(&self, other: &Self) -> (res: bool) {
        eq_ignore_ascii_case(self.0.as_str(), other.0.as_str())
    }
}

impl vstd::std_specs::cmp::PartialEqSpecImpl for Name {
    open spec fn obeys_eq_spec() -> bool {
        true
    }

    open spec fn eq_spec(&self, other: &Name) -> bool {
        same_ignoring_ascii_case(self@, other@)
    }
}

impl Eq for Name {

}

} // verus!

verus! {

/// Names are compared (`==` on names means [`same_ignoring_ascii_case`]) as an equivalence: each name equals itself, the comparison is
/// symmetric, and two names equal to a third are equal to each other.
pub proof fn law_name_equality_is_equivalence(a: Name, b: Name, c: Name)
    ensures
        same_ignoring_ascii_case(a@, a@),
        same_ignoring_ascii_case(a@, b@) == same_ignoring_ascii_case(b@, a@),
        same_ignoring_ascii_case(a@, b@) && same_ignoring_ascii_case(b@, c@)
            ==> same_ignoring_ascii_case(a@, c@),
{
}

} // verus!
