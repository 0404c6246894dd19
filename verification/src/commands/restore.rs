//! The `restore` subcommand, which restores nothing yet.

use vstd::prelude::*;

verus! {

/// Arguments for the `restore` subcommand.
pub struct Restore;

} // verus!
