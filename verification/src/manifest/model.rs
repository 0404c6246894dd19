//! The manifest schema.

use vstd::prelude::*;

use super::plugin::{Name, Plugin};
use super::server::Server;
use crate::paper::{Build, Version};

verus! {

/// Defines the manifest schema: the server, and the plugins by name.
#[derive(Debug)]
pub struct Model {
    pub server: Server,
    pub plugins: Vec<(Name, Plugin)>,
}

impl Default for Model {
    /// The default server and no plugins.
    fn default() -> (model: Model)
        ensures
            model.server.version == (Version { major: 26, minor: 2, patch: 0, release: None }),
            model.server.build == Build(0),
            model.plugins@ == Seq::<(Name, Plugin)>::empty(),
    {
        Model { server: Server::default(), plugins: Vec::new() }
    }
}

} // verus!
