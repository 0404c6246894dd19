//! The subcommands of the command-line interface: their arguments and the decisions they make.

pub mod add;
pub mod backup;
pub mod new;
pub mod package_build;
pub mod remove;
pub mod restore;
pub mod start;
pub mod status;
pub mod status_report;
pub mod stop;
pub mod update;

use vstd::prelude::*;

verus! {

/// Represents the application's command-line interface.
pub struct Cli {
    /// Name of plugin to install.
    pub name: String,
    /// Include non-stable builds.
    pub allow_experimental: bool,
}

} // verus!
