//! The manifest of a package, `Celestia.toml`: the server it runs and the plugins it installs.

pub mod model;
pub mod plugin;
pub mod server;

use vstd::prelude::*;

use crate::paper::{Build, Version};
use crate::text::{ascii_lower, eq_ignore_ascii_case, same_ignoring_ascii_case};
pub use model::Model;
pub use plugin::{Name, Plugin, Source};
pub use server::Server;

verus! {

/// No two plugins of `entries` have names that are equal without regard to ASCII case.
pub open spec fn names_unique(entries: Seq<(Name, Plugin)>) -> bool {
    forall|i: int, j: int|
        0 <= i < j < entries.len() ==> !same_ignoring_ascii_case(
            #[trigger] entries[i].0@,
            #[trigger] entries[j].0@,
        )
}

/// The position of the plugin whose name matches `name` without regard to ASCII case.
pub open spec fn index_of(entries: Seq<(Name, Plugin)>, name: Seq<char>) -> Option<int> {
    if exists|i: int| 0 <= i < entries.len() && same_ignoring_ascii_case(entries[i].0@, name) {
        Some(choose|i: int| 0 <= i < entries.len() && same_ignoring_ascii_case(entries[i].0@, name))
    } else {
        None
    }
}

/// The plugin that `entries` lists under `name`, without regard to ASCII case.
pub open spec fn lookup(entries: Seq<(Name, Plugin)>, name: Seq<char>) -> Option<Plugin> {
    match index_of(entries, name) {
        Some(i) => Some(entries[i].1),
        None => None,
    }
}

/// The plugins after adding `plugin` under `name`: an entry whose name matches keeps its name and
/// takes the new plugin; otherwise the new entry comes last.
pub open spec fn added(entries: Seq<(Name, Plugin)>, name: Name, plugin: Plugin) -> Seq<
    (Name, Plugin),
> {
    match index_of(entries, name@) {
        Some(i) => entries.update(i, (entries[i].0, plugin)),
        None => entries.push((name, plugin)),
    }
}

/// The plugins after removing the one whose name matches `name`.
pub open spec fn removed(entries: Seq<(Name, Plugin)>, name: Seq<char>) -> Seq<(Name, Plugin)> {
    match index_of(entries, name) {
        Some(i) => entries.remove(i),
        None => entries,
    }
}

/// With unique names, the entry whose name matches is the one at its position.
pub proof fn lemma_index_of_unique(entries: Seq<(Name, Plugin)>, name: Seq<char>, k: int)
    requires
        names_unique(entries),
        0 <= k < entries.len(),
        same_ignoring_ascii_case(entries[k].0@, name),
    ensures
        index_of(entries, name) == Some(k),
{
    assert(exists|i: int| 0 <= i < entries.len() && same_ignoring_ascii_case(entries[i].0@, name));
    let j = choose|i: int| 0 <= i < entries.len() && same_ignoring_ascii_case(entries[i].0@, name);
    if j < k {
        assert(!same_ignoring_ascii_case(entries[j].0@, entries[k].0@));
    } else if k < j {
        assert(!same_ignoring_ascii_case(entries[k].0@, entries[j].0@));
    }
}

/// Law: adding a plugin under a name makes it the plugin found under that name, leaves the
/// plugins under other names as they were, and keeps the names unique.
pub proof fn law_add_then_lookup(
    entries: Seq<(Name, Plugin)>,
    name: Name,
    plugin: Plugin,
    other: Seq<char>,
)
    requires
        names_unique(entries),
    ensures
        names_unique(added(entries, name, plugin)),
        lookup(added(entries, name, plugin), name@) == Some(plugin),
        !same_ignoring_ascii_case(other, name@) ==> lookup(added(entries, name, plugin), other)
            == lookup(entries, other),
{
    let new = added(entries, name, plugin);
    match index_of(entries, name@) {
        Some(i) => {
            assert(0 <= i < entries.len() && same_ignoring_ascii_case(entries[i].0@, name@));
            assert forall|a: int| 0 <= a < new.len() implies (#[trigger] new[a]).0 == entries[a].0 by {
            }
            lemma_index_of_unique(new, name@, i);
            if !same_ignoring_ascii_case(other, name@) {
                if exists|k: int| 0 <= k < entries.len() && same_ignoring_ascii_case(entries[k].0@, other) {
                    let k = choose|k: int| 0 <= k < entries.len() && same_ignoring_ascii_case(entries[k].0@, other);
                    lemma_index_of_unique(entries, other, k);
                    lemma_index_of_unique(new, other, k);
                } else {
                    assert(!exists|k: int| 0 <= k < new.len() && same_ignoring_ascii_case(new[k].0@, other));
                }
            }
        },
        None => {
            assert(names_unique(new)) by {
                assert forall|a: int, b: int| 0 <= a < b < new.len() implies !same_ignoring_ascii_case(
                    #[trigger] new[a].0@,
                    #[trigger] new[b].0@,
                ) by {
                    if b == entries.len() {
                        assert(new[a] == entries[a]);
                    } else {
                        assert(new[a] == entries[a]);
                        assert(new[b] == entries[b]);
                    }
                }
            }
            lemma_index_of_unique(new, name@, entries.len() as int);
            if !same_ignoring_ascii_case(other, name@) {
                if exists|k: int| 0 <= k < entries.len() && same_ignoring_ascii_case(entries[k].0@, other) {
                    let k = choose|k: int| 0 <= k < entries.len() && same_ignoring_ascii_case(entries[k].0@, other);
                    lemma_index_of_unique(entries, other, k);
                    assert(new[k] == entries[k]);
                    lemma_index_of_unique(new, other, k);
                } else {
                    assert forall|k: int| 0 <= k < new.len() implies !same_ignoring_ascii_case(
                        #[trigger] new[k].0@,
                        other,
                    ) by {
                        if k < entries.len() {
                            assert(new[k] == entries[k]);
                        }
                    }
                }
            }
        },
    }
}

/// Law: removing a plugin leaves no plugin under its name, leaves the plugins under other names as
/// they were, and keeps the names unique.
pub proof fn law_remove_then_lookup(entries: Seq<(Name, Plugin)>, name: Seq<char>, other: Seq<char>)
    requires
        names_unique(entries),
    ensures
        names_unique(removed(entries, name)),
        lookup(removed(entries, name), name) is None,
        !same_ignoring_ascii_case(other, name) ==> lookup(removed(entries, name), other) == lookup(
            entries,
            other,
        ),
{
    let new = removed(entries, name);
    match index_of(entries, name) {
        Some(i) => {
            assert(0 <= i < entries.len() && same_ignoring_ascii_case(entries[i].0@, name));
            assert forall|a: int| 0 <= a < new.len() implies #[trigger] new[a] == entries[if a < i {
                a
            } else {
                a + 1
            }] by {}
            assert(names_unique(new)) by {
                assert forall|a: int, b: int| 0 <= a < b < new.len() implies !same_ignoring_ascii_case(
                    #[trigger] new[a].0@,
                    #[trigger] new[b].0@,
                ) by {
                    let a0 = if a < i { a } else { a + 1 };
                    let b0 = if b < i { b } else { b + 1 };
                    assert(new[a] == entries[a0]);
                    assert(new[b] == entries[b0]);
                }
            }
            assert forall|k: int| 0 <= k < new.len() implies !same_ignoring_ascii_case(
                #[trigger] new[k].0@,
                name,
            ) by {
                let k0 = if k < i { k } else { k + 1 };
                assert(new[k] == entries[k0]);
                if k0 < i {
                    assert(!same_ignoring_ascii_case(entries[k0].0@, entries[i].0@));
                } else {
                    assert(!same_ignoring_ascii_case(entries[i].0@, entries[k0].0@));
                }
            }
            if !same_ignoring_ascii_case(other, name) {
                if exists|k: int| 0 <= k < entries.len() && same_ignoring_ascii_case(entries[k].0@, other) {
                    let k = choose|k: int| 0 <= k < entries.len() && same_ignoring_ascii_case(entries[k].0@, other);
                    lemma_index_of_unique(entries, other, k);
                    assert(k != i);
                    let k1 = if k < i { k } else { k - 1 };
                    assert(new[k1] == entries[k]);
                    lemma_index_of_unique(new, other, k1);
                } else {
                    assert forall|k: int| 0 <= k < new.len() implies !same_ignoring_ascii_case(
                        #[trigger] new[k].0@,
                        other,
                    ) by {
                        let k0 = if k < i { k } else { k + 1 };
                        assert(new[k] == entries[k0]);
                    }
                }
            }
        },
        None => {},
    }
}

/// Law: removing a plugin that was just added under a new name gives back the plugins as they
/// were.
pub proof fn law_remove_undoes_add(entries: Seq<(Name, Plugin)>, name: Name, plugin: Plugin)
    requires
        names_unique(entries),
        lookup(entries, name@) is None,
    ensures
        removed(added(entries, name, plugin), name@) == entries,
{
    let new = added(entries, name, plugin);
    assert(new == entries.push((name, plugin)));
    law_add_then_lookup(entries, name, plugin, name@);
    lemma_index_of_unique(new, name@, entries.len() as int);
    assert(new.remove(entries.len() as int) =~= entries);
}

/// A manifest: a well-formed [`Model`], whose plugin names are unique without regard to case.
#[derive(Debug)]
pub struct Manifest {
    inner: Model,
}

impl View for Manifest {
    type V = Model;

    closed spec fn view(&self) -> Model {
        self.inner
    }
}

impl Default for Manifest {
    /// A manifest for the default server, without plugins.
    fn default() -> (manifest: Manifest)
        ensures
            manifest@.server.version == (Version { major: 26, minor: 2, patch: 0, release: None }),
            manifest@.server.build == Build(0),
            manifest@.plugins@ == Seq::<(Name, Plugin)>::empty(),
    {
        Manifest { inner: Model::default() }
    }
}

impl Manifest {
    #[verifier::type_invariant]
    spec fn well_formed(self) -> bool {
        names_unique(self.inner.plugins@)
    }

    /// The schema behind the manifest.
    pub fn model(&self) -> (model: &Model)
        ensures
            *model == self@,
    {
        &self.inner
    }

    pub fn version(&self) -> (version: &Version)
        ensures
            *version == self@.server.version,
    {
        &self.inner.server.version
    }

    pub fn set_version(&mut self, version: Version)
        ensures
            final(self)@.server.version == version,
            final(self)@.server.build == old(self)@.server.build,
            final(self)@.plugins == old(self)@.plugins,
    {
        proof {
            use_type_invariant(&*self);
        }
        self.inner.server.version = version;
    }

    pub fn build(&self) -> (build: Build)
        ensures
            build == self@.server.build,
    {
        self.inner.server.build
    }

    pub fn set_build(&mut self, build: Build)
        ensures
            final(self)@.server.build == build,
            final(self)@.server.version == old(self)@.server.version,
            final(self)@.plugins == old(self)@.plugins,
    {
        proof {
            use_type_invariant(&*self);
        }
        self.inner.server.build = build;
    }

    pub fn plugins(&self) -> (plugins: &Vec<(Name, Plugin)>)
        ensures
            plugins@ == self@.plugins@,
            names_unique(plugins@),
    {
        proof {
            use_type_invariant(self);
        }
        &self.inner.plugins
    }

    /// Finds the position of the plugin named `name`, without regard to ASCII case.
    fn position(&self, name: &Name) -> (res: Option<usize>)
        ensures
            match (res, index_of(self@.plugins@, name@)) {
                (Some(i), Some(j)) => i == j,
                (None, None) => true,
                _ => false,
            },
    {
        proof {
            use_type_invariant(self);
        }
        let entries = &self.inner.plugins;
        let ghost es = entries@;
        let mut i: usize = 0;
        while i < entries.len()
            invariant
                es == entries@,
                es == self@.plugins@,
                names_unique(es),
                i <= es.len(),
                forall|k: int| 0 <= k < i ==> !same_ignoring_ascii_case(#[trigger] es[k].0@, name@),
            decreases es.len() - i,
        {
            if eq_ignore_ascii_case(entries[i].0.as_str(), name.as_str()) {
                proof {
                    assert(same_ignoring_ascii_case(es[i as int].0@, name@));
                    assert(exists|k: int| 0 <= k < es.len() && same_ignoring_ascii_case(es[k].0@, name@));
                    let j = choose|j: int| 0 <= j < es.len() && same_ignoring_ascii_case(es[j].0@, name@);
                    if j != i {
                        if j < i {
                            assert(!same_ignoring_ascii_case(es[j].0@, es[i as int].0@));
                        } else {
                            assert(!same_ignoring_ascii_case(es[i as int].0@, es[j].0@));
                        }
                    }
                    assert(index_of(es, name@) == Some(i as int));
                }
                return Some(i);
            }
            i = i + 1;
        }
        None
    }

    /// Adds a plugin under `name`. A plugin already listed under a name equal to it without
    /// regard to ASCII case is replaced, keeping the name it was listed under, and returned.
    pub fn add_plugin(&mut self, name: Name, plugin: Plugin) -> (previous: Option<Plugin>)
        ensures
            final(self)@.server == old(self)@.server,
            final(self)@.plugins@ == added(old(self)@.plugins@, name, plugin),
            previous == lookup(old(self)@.plugins@, name@),
    {
        proof {
            use_type_invariant(&*self);
        }
        let position = self.position(&name);
        let mut entries: Vec<(Name, Plugin)> = Vec::new();
        std::mem::swap(&mut entries, &mut self.inner.plugins);
        let ghost before = entries@;
        match position {
            Some(i) => {
                let (kept, old_plugin) = entries.remove(i);
                entries.insert(i, (kept, plugin));
                proof {
                    assert(entries@ =~= before.update(i as int, (before[i as int].0, plugin)));
                    assert forall|a: int, b: int| 0 <= a < b < entries@.len() implies !same_ignoring_ascii_case(
                        #[trigger] entries@[a].0@,
                        #[trigger] entries@[b].0@,
                    ) by {
                        assert(entries@[a].0 == before[a].0);
                        assert(entries@[b].0 == before[b].0);
                    }
                }
                self.inner.plugins = entries;
                Some(old_plugin)
            },
            None => {
                entries.push((name, plugin));
                proof {
                    assert forall|a: int, b: int| 0 <= a < b < entries@.len() implies !same_ignoring_ascii_case(
                        #[trigger] entries@[a].0@,
                        #[trigger] entries@[b].0@,
                    ) by {
                        if b == before.len() {
                            assert(entries@[a].0 == before[a].0);
                            assert(!same_ignoring_ascii_case(before[a].0@, name@));
                        } else {
                            assert(entries@[a].0 == before[a].0);
                            assert(entries@[b].0 == before[b].0);
                        }
                    }
                }
                self.inner.plugins = entries;
                None
            },
        }
    }

    /// Removes the plugin named `name`, without regard to ASCII case, and returns it with the
    /// name it was listed under.
    pub fn remove_plugin(&mut self, name: &Name) -> (result: Option<(Name, Plugin)>)
        ensures
            final(self)@.server == old(self)@.server,
            final(self)@.plugins@ == removed(old(self)@.plugins@, name@),
            match index_of(old(self)@.plugins@, name@) {
                Some(i) => result == Some(old(self)@.plugins@[i]),
                None => result is None,
            },
    {
        proof {
            use_type_invariant(&*self);
        }
        match self.position(name) {
            Some(i) => {
                let mut entries: Vec<(Name, Plugin)> = Vec::new();
                std::mem::swap(&mut entries, &mut self.inner.plugins);
                let ghost before = entries@;
                let removed = entries.remove(i);
                proof {
                    assert forall|a: int, b: int| 0 <= a < b < entries@.len() implies !same_ignoring_ascii_case(
                        #[trigger] entries@[a].0@,
                        #[trigger] entries@[b].0@,
                    ) by {
                        let a0 = if a < i { a } else { a + 1 };
                        let b0 = if b < i { b } else { b + 1 };
                        assert(entries@[a] == before[a0]);
                        assert(entries@[b] == before[b0]);
                    }
                }
                self.inner.plugins = entries;
                Some(removed)
            },
            None => None,
        }
    }
}

} // verus!
