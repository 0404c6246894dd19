//! Resolving plugins on Modrinth.

use vstd::prelude::*;
use vstd::string::*;

use super::{PluginArtifact, Registry, RepositoryError};

use crate::text::texts_equal;

verus! {

/// A version of a project as Modrinth's List Versions response describes it: its version number
/// and the addresses of its files.
#[derive(Debug)]
pub struct ListedVersion {
    pub version_number: String,
    pub file_urls: Vec<String>,
}

/// The position of the version to install: the first one with the requested version number, or
/// the first one if no version is requested.
pub open spec fn wanted_index(versions: Seq<ListedVersion>, version: Option<Seq<char>>, from: int) -> Option<int>
    decreases versions.len() - from,
{
    if from < 0 || from >= versions.len() {
        None
    } else {
        match version {
            None => Some(from),
            Some(v) => if versions[from].version_number@ == v {
                Some(from)
            } else {
                wanted_index(versions, version, from + 1)
            },
        }
    }
}

/// The text of an optional text.
pub open spec fn text_of(s: Option<&str>) -> Option<Seq<char>> {
    match s {
        Some(t) => Some(t@),
        None => None,
    }
}

/// The message for a version without files.
pub open spec fn no_files_message() -> Seq<char> {
    "this version does not provide any files"@
}

/// What resolving a plugin gives: the artifact of the wanted version, downloaded from its first
/// file; [`RepositoryError::NotFound`] without such a version, or an error message if it has no
/// files.
pub open spec fn resolved(id: Seq<char>, version: Option<Seq<char>>, versions: Seq<ListedVersion>) -> Result<
    (Seq<char>, Seq<char>),
    Option<Seq<char>>,
> {
    match wanted_index(versions, version, 0) {
        None => Err(None),
        Some(i) => if versions[i].file_urls@.len() == 0 {
            Err(Some(no_files_message()))
        } else {
            Ok((versions[i].version_number@, versions[i].file_urls@[0]@))
        },
    }
}

/// Finds the version to install.
fn find_wanted(versions: &Vec<ListedVersion>, version: Option<&str>) -> (res: Option<usize>)
    ensures
        res matches Some(i) ==> i < versions@.len(),
        match (res, wanted_index(versions@, text_of(version), 0)) {
            (Some(i), Some(j)) => i == j,
            (None, None) => true,
            _ => false,
        },
{
    let ghost wanted = text_of(version);
    let mut i: usize = 0;
    while i < versions.len()
        invariant
            i <= versions@.len(),
            wanted == text_of(version),
            wanted_index(versions@, wanted, 0) == wanted_index(versions@, wanted, i as int),
        decreases versions@.len() - i,
    {
        match version {
            None => {
                return Some(i);
            },
            Some(v) => {
                if texts_equal(v, versions[i].version_number.as_str()) {
                    return Some(i);
                }
            },
        }
        i = i + 1;
    }
    None
}

/// Picks the plugin version to install among a project's versions (newest first) and the file
/// to download for it: the version with the requested number, or the newest if none is
/// requested; its first file.
///
/// # Errors
///
/// [`RepositoryError::NotFound`] if no version is the requested one (or there is none), and
/// [`RepositoryError::Custom`] if the version provides no files.
pub fn resolve_artifact(id: &str, version: Option<&str>, versions: Vec<ListedVersion>) -> (res: Result<
    PluginArtifact,
    RepositoryError,
>)
    ensures
        match (res, resolved(id@, text_of(version), versions@)) {
            (Ok(artifact), Ok((number, url))) => {
                &&& artifact.registry == Registry::Modrinth
                &&& artifact.id@ == id@
                &&& artifact.version@ == number
                &&& artifact.download_url@ == url
            },
            (Err(RepositoryError::NotFound), Err(None)) => true,
            (Err(RepositoryError::Custom(message)), Err(Some(m))) => message@ == m,
            _ => false,
        },
{
    let mut list = versions;
    let ghost all = list@;
    match find_wanted(&list, version) {
        None => Err(RepositoryError::NotFound),
        Some(i) => {
            let chosen = list.remove(i);
            assert(chosen == all[i as int]);
            let mut urls = chosen.file_urls;
            if urls.len() == 0 {
                proof {
                    reveal_strlit("this version does not provide any files");
                }
                return Err(
                    RepositoryError::Custom(
                        String::from_str("this version does not provide any files"),
                    ),
                );
            }
            let url = urls.remove(0);
            Ok(
                PluginArtifact {
                    registry: Registry::Modrinth,
                    id: String::from_str(id),
                    version: chosen.version_number,
                    download_url: url,
                },
            )
        },
    }
}

/// The address of Modrinth's search for `query`.
pub fn search_url(query: &str) -> (url: String)
    ensures
        url@ == "https://api.modrinth.com/v2/search?query="@ + query@,
{
    String::from_str("https://api.modrinth.com/v2/search?query=").concat(query)
}

/// The address of the versions of the project `id`.
pub fn versions_url(id: &str) -> (url: String)
    ensures
        url@ == "https://api.modrinth.com/v2/project/"@ + id@ + "/version"@,
{
    String::from_str("https://api.modrinth.com/v2/project/").concat(id).concat("/version")
}

} // verus!

verus! {

/// The search for the wanted version, from `from` on.
proof fn lemma_wanted_index_from(versions: Seq<ListedVersion>, version: Option<Seq<char>>, from: int)
    requires
        0 <= from,
    ensures
        match wanted_index(versions, version, from) {
            Some(i) => from <= i < versions.len() && match version {
                None => i == from,
                Some(v) => versions[i].version_number@ == v && forall|j: int|
                    from <= j < i ==> (#[trigger] versions[j]).version_number@ != v,
            },
            None => match version {
                None => from >= versions.len(),
                Some(v) => forall|j: int|
                    from <= j < versions.len() ==> (#[trigger] versions[j]).version_number@ != v,
            },
        },
    decreases versions.len() - from,
{
    if from < versions.len() {
        match version {
            Some(v) => if versions[from].version_number@ != v {
                lemma_wanted_index_from(versions, version, from + 1);
            },
            None => {},
        }
    }
}

/// Law: resolving a plugin takes the version with the requested number (the first such), or
/// the newest listed (the first) where none is requested, and downloads its first file. It
/// fails with nothing found where no version is the wanted one, and with a message where the
/// wanted version has no files.
pub proof fn law_resolved(id: Seq<char>, version: Option<Seq<char>>, versions: Seq<ListedVersion>)
    ensures
        version is None && versions.len() == 0 ==> resolved(id, version, versions) == Err::<
            (Seq<char>, Seq<char>),
            Option<Seq<char>>,
        >(None),
        version is None && versions.len() > 0 ==> resolved(id, version, versions) == if versions[0].file_urls@.len() > 0 {
            Ok::<(Seq<char>, Seq<char>), Option<Seq<char>>>(
                (versions[0].version_number@, versions[0].file_urls@[0]@),
            )
        } else {
            Err(Some(no_files_message()))
        },
        version matches Some(v) ==> ((forall|j: int| 0 <= j < versions.len() ==> (#[trigger] versions[j]).version_number@ != v)
            ==> resolved(id, version, versions) == Err::<(Seq<char>, Seq<char>), Option<Seq<char>>>(None)),
        version matches Some(v) ==> forall|i: int|
            0 <= i < versions.len() && (#[trigger] versions[i]).version_number@ == v && (forall|j: int|
                0 <= j < i ==> (#[trigger] versions[j]).version_number@ != v) ==> resolved(id, version, versions)
                == if versions[i].file_urls@.len() > 0 {
                Ok::<(Seq<char>, Seq<char>), Option<Seq<char>>>(
                    (v, versions[i].file_urls@[0]@),
                )
            } else {
                Err(Some(no_files_message()))
            },
{
    lemma_wanted_index_from(versions, version, 0);
    match version {
        Some(v) => {
            assert forall|i: int|
                0 <= i < versions.len() && (#[trigger] versions[i]).version_number@ == v && (forall|j: int|
                    0 <= j < i ==> (#[trigger] versions[j]).version_number@ != v) implies wanted_index(versions, version, 0)
                == Some(i) by {
                let k = wanted_index(versions, version, 0)->0;
                if k < i {
                    assert(versions[k].version_number@ != v);
                } else if k > i {
                    assert(versions[i].version_number@ != v);
                }
            }
        },
        None => {},
    }
}

} // verus!
