//! The `add` subcommand: downloads plugins from Modrinth into `plugins/`.

use vstd::prelude::*;
use vstd::string::*;

verus! {

/// Arguments for the `add` subcommand.
pub struct Add {
    /// Name of the first plugin to install.
    pub name: String,
    /// Names of further plugins to install.
    pub additional_names: Vec<String>,
    /// Include non-stable releases.
    pub allow_experimental: bool,
    /// Run without committing changes.
    pub dry_run: bool,
}

/// The texts of a list of strings.
pub open spec fn string_texts(names: Seq<String>) -> Seq<Seq<char>> {
    names.map_values(|n: String| n@)
}

/// The Minecraft version that plugins are looked up for.
pub open spec fn target_game_version() -> Seq<char> {
    "26.2"@
}

impl Add {
    /// The names of the plugins to install, in the order they were given.
    pub fn names(self) -> (names: Vec<String>)
        ensures
            string_texts(names@) == seq![self.name@] + string_texts(self.additional_names@),
    {
        let mut names = self.additional_names;
        let ghost rest = names@;
        names.insert(0, self.name);
        proof {
            assert(string_texts(names@) =~= seq![self.name@] + string_texts(rest));
        }
        names
    }
}

/// The Minecraft version that plugins are looked up for.
pub fn game_version() -> (version: &'static str)
    ensures
        version@ == target_game_version(),
{
    "26.2"
}

} // verus!
