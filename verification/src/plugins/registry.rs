//! Where plugins are downloaded from.

use vstd::prelude::*;

verus! {

/// A plugin repository.
#[derive(Debug, Clone, Copy, PartialEq, Eq, Structural)]
pub enum Registry {
    Modrinth,
    Hangar,
}

/// The identifier of a registry, as manifests and the command line write it.
pub open spec fn registry_id(registry: Registry) -> Seq<char> {
    match registry {
        Registry::Modrinth => "modrinth"@,
        Registry::Hangar => "hangar"@,
    }
}

/// The name of a registry, as people write it.
pub open spec fn registry_display_name(registry: Registry) -> Seq<char> {
    match registry {
        Registry::Modrinth => "Modrinth"@,
        Registry::Hangar => "Hangar"@,
    }
}

impl Registry {
    pub fn id(&self) -> (id: &'static str)
        ensures
            id@ == registry_id(*self),
    {
        match *self {
            Self::Modrinth => "modrinth",
            Self::Hangar => "hangar",
        }
    }

    pub fn display_name(&self) -> (name: &'static str)
        ensures
            name@ == registry_display_name(*self),
    {
        match *self {
            Self::Modrinth => "Modrinth",
            Self::Hangar => "Hangar",
        }
    }
}

impl Default for Registry {
    /// Modrinth is the registry that manifests mean when they name none.
    fn default() -> (registry: Registry)
        ensures
            registry == Registry::Modrinth,
    {
        Registry::Modrinth
    }
}

} // verus!
