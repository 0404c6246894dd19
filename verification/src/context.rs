//! Shared state for command execution.

use vstd::prelude::*;
use vstd::string::*;

use crate::notifier::Notifier;
use crate::package::Package;
use crate::paper::PaperClient;
use crate::tmux;

verus! {

#[verifier::external_type_specification]
#[verifier::external_body]
pub struct ExStdout(std::io::Stdout);

/// Shared state for command execution.
#[derive(Debug)]
pub struct Context {
    pub package: Package,
    pub paper: PaperClient,
    pub notifier: Notifier<std::io::Stdout>,
}

/// The tmux server and session that servers run in.
pub struct TmuxContext {
    pub server: tmux::Server,
    pub session: tmux::Session,
}

impl Context {
    pub fn package(&self) -> (package: &Package)
        ensures
            *package == self.package,
    {
        &self.package
    }

    pub fn package_mut(&mut self) -> (package: &mut Package)
        ensures
            *package == old(self).package,
            final(self).package == *final(package),
            final(self).paper == old(self).paper,
            final(self).notifier == old(self).notifier,
    {
        &mut self.package
    }

    pub fn paper_client(&self) -> (client: &PaperClient)
        ensures
            *client == self.paper,
    {
        &self.paper
    }

    /// The tmux server `celestia` and its session `servers`.
    pub fn tmux_ctx(&self) -> (ctx: TmuxContext)
        ensures
            ctx.server@ == "celestia"@,
            ctx.session@ == "servers"@,
    {
        TmuxContext {
            server: tmux::Server::new(String::from_str("celestia")),
            session: tmux::Session::new(String::from_str("servers")),
        }
    }
}

} // verus!
