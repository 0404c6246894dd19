//! The `remove` subcommand: takes plugins out of the manifest.

use vstd::prelude::*;

use crate::manifest::{index_of, removed, Manifest, Name, Plugin};

verus! {

/// Arguments for the `remove` subcommand.
pub struct Remove {
    pub name: Name,
    pub additional_names: Vec<Name>,
}

/// What removing the plugins named by `names`, in order, does to `entries`: the entries left,
/// the names the removed plugins were listed under, and the first name that matches no plugin,
/// where removing stops.
pub open spec fn remove_names(entries: Seq<(Name, Plugin)>, names: Seq<Seq<char>>) -> (
    Seq<(Name, Plugin)>,
    Seq<Seq<char>>,
    Option<Seq<char>>,
)
    decreases names.len(),
{
    if names.len() == 0 {
        (entries, seq![], None)
    } else {
        match index_of(entries, names[0]) {
            None => (entries, seq![], Some(names[0])),
            Some(i) => {
                let (rest, gone, missing) = remove_names(
                    removed(entries, names[0]),
                    names.drop_first(),
                );
                (rest, seq![entries[i].0@] + gone, missing)
            },
        }
    }
}

/// A result of [`remove_names`] with the names removed before it put in front.
pub open spec fn after_removing(
    gone: Seq<Seq<char>>,
    outcome: (Seq<(Name, Plugin)>, Seq<Seq<char>>, Option<Seq<char>>),
) -> (Seq<(Name, Plugin)>, Seq<Seq<char>>, Option<Seq<char>>) {
    (outcome.0, gone + outcome.1, outcome.2)
}

/// The names of a list of names.
pub open spec fn name_texts(names: Seq<Name>) -> Seq<Seq<char>> {
    names.map_values(|n: Name| n@)
}

/// Removing a name that matches a plugin takes that plugin out and records the name it was
/// listed under, then goes on with the other names.
proof fn lemma_remove_step(
    entries: Seq<(Name, Plugin)>,
    names: Seq<Seq<char>>,
    gone: Seq<Seq<char>>,
)
    requires
        names.len() > 0,
        index_of(entries, names[0]) is Some,
    ensures
        after_removing(gone, remove_names(entries, names)) == after_removing(
            gone.push(entries[index_of(entries, names[0])->0].0@),
            remove_names(removed(entries, names[0]), names.drop_first()),
        ),
{
    let k = index_of(entries, names[0])->0;
    let more = remove_names(removed(entries, names[0]), names.drop_first());
    assert(gone + (seq![entries[k].0@] + more.1) =~= gone.push(entries[k].0@) + more.1);
}

impl Remove {
    /// The names to remove, in the order they were given.
    pub fn names(self) -> (names: Vec<Name>)
        ensures
            name_texts(names@) == seq![self.name@] + name_texts(self.additional_names@),
    {
        let mut names: Vec<Name> = Vec::new();
        names.push(self.name);
        let mut rest = self.additional_names;
        names.append(&mut rest);
        proof {
            assert(name_texts(names@) =~= seq![self.name@] + name_texts(self.additional_names@));
        }
        names
    }
}

/// Removes the plugins named by `names`, in order, and gives the names they were listed
/// under, up to the first name that matches no plugin, which is given too. The manifest is
/// left as [`remove_names`] says: without the plugins removed before that name.
pub fn remove_plugins(manifest: &mut Manifest, names: Vec<Name>) -> (res: (Vec<Name>, Option<Name>))
    ensures
        name_texts(res.0@) == remove_names(old(manifest)@.plugins@, name_texts(names@)).1,
        match (res.1, remove_names(old(manifest)@.plugins@, name_texts(names@)).2) {
            (Some(missing), Some(text)) => missing@ == text,
            (None, None) => true,
            _ => false,
        },
        final(manifest)@.plugins@ == remove_names(old(manifest)@.plugins@, name_texts(names@)).0,
        final(manifest)@.server == old(manifest)@.server,
{
    let ghost start = manifest@.plugins@;
    let ghost all = name_texts(names@);
    let mut gone: Vec<Name> = Vec::new();
    let ghost mut i: int = 0;
    proof {
        assert(all.skip(0) =~= all);
        assert(Seq::<Seq<char>>::empty() + remove_names(start, all).1 =~= remove_names(start, all).1);
        assert(name_texts(gone@) =~= seq![]);
    }
    let mut pending = names;
    let ghost n = all.len();
    while pending.len() > 0
        invariant
            start == old(manifest)@.plugins@,
            all == name_texts(names@),
            n == all.len(),
            pending@.len() + i == n,
            0 <= i,
            name_texts(pending@) == all.skip(i),
            remove_names(start, all) == after_removing(
                name_texts(gone@),
                remove_names(manifest@.plugins@, all.skip(i)),
            ),
            manifest@.server == old(manifest)@.server,
        decreases pending@.len(),
    {
        let ghost was = pending@;
        let name = pending.remove(0);
        proof {
            assert(name_texts(was)[0] == name@);
            assert(name_texts(pending@) =~= name_texts(was).drop_first());
        }
        let ghost before = manifest@.plugins@;
        let ghost rest_names = all.skip(i);
        proof {
            assert(rest_names[0] == name@);
            assert(rest_names.drop_first() =~= all.skip(i + 1));
        }
        let ghost gone_before = name_texts(gone@);
        match manifest.remove_plugin(&name) {
            Some((plugin_name, _)) => {
                proof {
                    lemma_remove_step(before, rest_names, gone_before);
                }
                gone.push(plugin_name);
                proof {
                    assert(name_texts(gone@) =~= gone_before.push(plugin_name@));
                    i = i + 1;
                }
            },
            None => {
                proof {
                    assert(gone_before + Seq::<Seq<char>>::empty() =~= gone_before);
                }
                return (gone, Some(name));
            },
        }
    }
    proof {
        assert(all.skip(i) =~= Seq::<Seq<char>>::empty());
        assert(name_texts(gone@) + Seq::<Seq<char>>::empty() =~= name_texts(gone@));
    }
    (gone, None)
}

} // verus!
