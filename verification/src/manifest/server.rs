//! The server section of a manifest.

use vstd::prelude::*;

use crate::paper::{Build, Version};

verus! {

/// The Minecraft version and Paper build that a package runs.
#[derive(Debug, Clone)]
pub struct Server {
    pub version: Version,
    pub build: Build,
}

impl Default for Server {
    fn default() -> (server: Server)
        ensures
            server.version == (Version { major: 26, minor: 2, patch: 0, release: None }),
            server.build == Build(0),
    {
        Server { version: Version::default(), build: Build::default() }
    }
}

} // verus!
