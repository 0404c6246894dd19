//! What the Paper API answers, and the choices made among its answers.

use vstd::prelude::*;

use crate::text::texts_equal;

use super::{Build, Version as MinecraftVersion};

verus! {

#[verifier::external_type_specification]
#[verifier::external_body]
pub struct ExNaiveDateTime(chrono::NaiveDateTime);

#[verifier::external_type_specification]
#[verifier::external_body]
pub struct ExNaiveDate(chrono::NaiveDate);

/// The projects that Paper publishes.
#[derive(Debug)]
pub struct ProjectsResponse {
    pub projects: Vec<ProjectResponse>,
}

/// A project and its versions, grouped by version family.
#[derive(Debug)]
pub struct ProjectResponse {
    pub project: Project,
    /// Each version family with its versions.
    pub version: Vec<(String, Vec<String>)>,
}

#[derive(Debug, Clone)]
pub struct Project {
    pub id: String,
    pub name: String,
}

/// The versions of a project.
#[derive(Debug)]
pub struct VersionsResponse {
    pub versions: Vec<VersionResponse>,
}

/// A version and its builds.
#[derive(Debug)]
pub struct VersionResponse {
    pub builds: Vec<u32>,
    pub version: Version,
}

#[derive(Debug)]
pub struct Version {
    pub id: MinecraftVersion,
    pub java: Java,
    pub support: Support,
}

#[derive(Debug)]
pub struct Java {
    pub flags: JavaFlags,
    pub version: JavaVersion,
}

#[derive(Debug)]
pub struct JavaFlags {
    pub recommended: Vec<String>,
}

#[derive(Debug, Clone, Copy)]
pub struct JavaVersion {
    pub minimum: u32,
}

#[derive(Debug)]
pub struct Support {
    pub end: Option<chrono::NaiveDate>,
    pub status: SupportStatus,
}

#[derive(Debug, Clone, Copy, PartialEq, Eq, Structural)]
pub enum SupportStatus {
    Supported,
    Deprecated,
    Unsupported,
}

/// A build of a version.
#[derive(Debug)]
pub struct BuildResponse {
    pub channel: Channel,
    pub commits: Vec<Commit>,
    /// Each download with its key, such as `server:default`.
    pub downloads: Downloads,
    pub id: Build,
    /// When, in UTC.
    pub time: chrono::NaiveDateTime,
}

/// The downloads of a build, each under a key of its own, such as `server:default`.
#[derive(Debug)]
pub struct Downloads {
    entries: Vec<(String, Download)>,
}

/// No two downloads have the same key.
pub open spec fn keys_unique(entries: Seq<(String, Download)>) -> bool {
    forall|i: int, j: int| 0 <= i < j < entries.len() ==> #[trigger] entries[i].0@ != #[trigger] entries[j].0@
}

impl View for Downloads {
    type V = Seq<(String, Download)>;

    /// The downloads with their keys.
    closed spec fn view(&self) -> Seq<(String, Download)> {
        self.entries@
    }
}

impl Downloads {
    #[verifier::type_invariant]
    spec fn well_formed(self) -> bool {
        keys_unique(self.entries@)
    }

    /// The downloads, where no two have the same key; `None` otherwise.
    pub fn new(entries: Vec<(String, Download)>) -> (downloads: Option<Downloads>)
        ensures
            downloads is Some <==> keys_unique(entries@),
            downloads matches Some(d) ==> d@ == entries@,
    {
        let n = entries.len();
        let mut j: usize = 0;
        while j < n
            invariant
                n == entries@.len(),
                j <= n,
                forall|a: int, b: int| 0 <= a < b < j ==> #[trigger] entries@[a].0@ != #[trigger] entries@[b].0@,
            decreases n - j,
        {
            let mut i: usize = 0;
            while i < j
                invariant
                    n == entries@.len(),
                    i <= j < n,
                    forall|a: int| 0 <= a < i ==> #[trigger] entries@[a].0@ != entries@[j as int].0@,
                decreases j - i,
            {
                if texts_equal(entries[i].0.as_str(), entries[j].0.as_str()) {
                    return None;
                }
                i = i + 1;
            }
            j = j + 1;
        }
        Some(Downloads { entries })
    }

    /// The downloads with their keys.
    pub fn entries(&self) -> (entries: &Vec<(String, Download)>)
        ensures
            entries@ == self@,
            keys_unique(entries@),
    {
        proof {
            use_type_invariant(self);
        }
        &self.entries
    }

    /// The downloads with their keys, given back.
    pub fn into_entries(self) -> (entries: Vec<(String, Download)>)
        ensures
            entries@ == self@,
            keys_unique(entries@),
    {
        proof {
            use_type_invariant(&self);
        }
        self.entries
    }
}

/// The channel a build was published on.
#[derive(Debug, Clone, Copy, PartialEq, Eq, Structural)]
pub enum Channel {
    Alpha,
    Beta,
    Stable,
    Recommended,
}

#[derive(Debug)]
pub struct Commit {
    pub message: String,
    pub sha: String,
    /// When, in UTC.
    pub time: chrono::NaiveDateTime,
}

#[derive(Debug)]
pub struct Download {
    pub checksums: Checksums,
    pub name: String,
    pub size: u32,
    pub url: String,
}

#[derive(Debug)]
pub struct Checksums {
    pub sha256: String,
}

/// The position of the first version whose id is `target`.
pub open spec fn version_index(versions: Seq<VersionResponse>, target: MinecraftVersion, from: int) -> Option<
    int,
>
    decreases versions.len() - from,
{
    if from < 0 || from >= versions.len() {
        None
    } else if versions[from].version.id == target {
        Some(from)
    } else {
        version_index(versions, target, from + 1)
    }
}

/// The version of a project whose id is `target`.
pub fn find_version(versions: Vec<VersionResponse>, target: &MinecraftVersion) -> (found: Option<
    VersionResponse,
>)
    ensures
        match version_index(versions@, *target, 0) {
            Some(i) => found == Some(versions@[i]),
            None => found is None,
        },
{
    let mut list = versions;
    let ghost all = list@;
    let mut i: usize = 0;
    while i < list.len()
        invariant
            list@ == all,
            all == versions@,
            i <= all.len(),
            version_index(all, *target, 0) == version_index(all, *target, i as int),
        decreases all.len() - i,
    {
        if list[i].version.id == *target {
            proof {
                assert(version_index(all, *target, i as int) == Some(i as int));
            }
            let found = list.remove(i);
            assert(found == all[i as int]);
            return Some(found);
        }
        i = i + 1;
    }
    None
}

/// Why no build could be chosen.
#[derive(Debug, PartialEq, Eq, Structural)]
pub enum BuildChoiceError {
    /// No build has the requested number.
    InvalidBuild,
    /// The version has no builds.
    NoBuilds,
}

/// The position of the first build numbered `target`.
pub open spec fn build_index(builds: Seq<BuildResponse>, target: Build, from: int) -> Option<int>
    decreases builds.len() - from,
{
    if from < 0 || from >= builds.len() {
        None
    } else if builds[from].id == target {
        Some(from)
    } else {
        build_index(builds, target, from + 1)
    }
}

/// Chooses a build among a version's builds (newest first): the one numbered `target`, or the
/// newest if no number is given.
///
/// # Errors
///
/// [`BuildChoiceError::InvalidBuild`] if no build has the requested number,
/// [`BuildChoiceError::NoBuilds`] if no number is given and there are no builds.
pub fn select_build(builds: Vec<BuildResponse>, target: Option<Build>) -> (res: Result<
    BuildResponse,
    BuildChoiceError,
>)
    ensures
        match target {
            Some(t) => match build_index(builds@, t, 0) {
                Some(i) => res == Ok::<BuildResponse, BuildChoiceError>(builds@[i]),
                None => res == Err::<BuildResponse, BuildChoiceError>(BuildChoiceError::InvalidBuild),
            },
            None => if builds@.len() > 0 {
                res == Ok::<BuildResponse, BuildChoiceError>(builds@[0])
            } else {
                res == Err::<BuildResponse, BuildChoiceError>(BuildChoiceError::NoBuilds)
            },
        },
{
    let mut list = builds;
    let ghost all = list@;
    match target {
        None => {
            if list.len() == 0 {
                Err(BuildChoiceError::NoBuilds)
            } else {
                Ok(list.remove(0))
            }
        },
        Some(t) => {
            let mut i: usize = 0;
            while i < list.len()
                invariant
                    list@ == all,
                    all == builds@,
                    target == Some(t),
                    i <= all.len(),
                    build_index(all, t, 0) == build_index(all, t, i as int),
                decreases all.len() - i,
            {
                if list[i].id == t {
                    proof {
                        assert(build_index(all, t, i as int) == Some(i as int));
                    }
                    let found = list.remove(i);
                    assert(found == all[i as int]);
                    return Ok(found);
                }
                i = i + 1;
            }
            Err(BuildChoiceError::InvalidBuild)
        },
    }
}

/// The key of the download that holds the server JAR.
pub open spec fn server_download_key() -> Seq<char> {
    "server:default"@
}

/// The position of the first download under `key`.
pub open spec fn download_index(downloads: Seq<(String, Download)>, key: Seq<char>, from: int) -> Option<int>
    decreases downloads.len() - from,
{
    if from < 0 || from >= downloads.len() {
        None
    } else if downloads[from].0@ == key {
        Some(from)
    } else {
        download_index(downloads, key, from + 1)
    }
}

/// The download of a build that holds the server JAR: the one under `server:default`.
pub fn server_download(response: &BuildResponse) -> (download: Option<&Download>)
    ensures
        match download_index(response.downloads@, server_download_key(), 0) {
            Some(i) => download == Some(&response.downloads@[i].1),
            None => download is None,
        },
{
    let downloads = response.downloads.entries();
    let mut i: usize = 0;
    while i < downloads.len()
        invariant
            downloads@ == response.downloads@,
            i <= downloads@.len(),
            download_index(downloads@, server_download_key(), 0) == download_index(
                downloads@,
                server_download_key(),
                i as int,
            ),
        decreases downloads@.len() - i,
    {
        if texts_equal(downloads[i].0.as_str(), "server:default") {
            return Some(&downloads[i].1);
        }
        i = i + 1;
    }
    None
}

} // verus!

verus! {

/// The search for a version, from `from` on.
proof fn lemma_version_index_from(versions: Seq<VersionResponse>, target: MinecraftVersion, from: int)
    requires
        0 <= from,
    ensures
        match version_index(versions, target, from) {
            Some(i) => from <= i < versions.len() && versions[i].version.id == target && forall|j: int|
                from <= j < i ==> (#[trigger] versions[j]).version.id != target,
            None => forall|j: int| from <= j < versions.len() ==> (#[trigger] versions[j]).version.id != target,
        },
    decreases versions.len() - from,
{
    if from < versions.len() && versions[from].version.id != target {
        lemma_version_index_from(versions, target, from + 1);
    }
}

/// Law: the version found for a target is the first supported version whose id is the target;
/// where none is, none is found.
pub proof fn law_version_index(versions: Seq<VersionResponse>, target: MinecraftVersion)
    ensures
        match version_index(versions, target, 0) {
            Some(i) => 0 <= i < versions.len() && versions[i].version.id == target && forall|j: int|
                0 <= j < i ==> (#[trigger] versions[j]).version.id != target,
            None => forall|j: int| 0 <= j < versions.len() ==> (#[trigger] versions[j]).version.id != target,
        },
{
    lemma_version_index_from(versions, target, 0);
}

/// The search for a build, from `from` on.
proof fn lemma_build_index_from(builds: Seq<BuildResponse>, target: Build, from: int)
    requires
        0 <= from,
    ensures
        match build_index(builds, target, from) {
            Some(i) => from <= i < builds.len() && builds[i].id == target && forall|j: int|
                from <= j < i ==> (#[trigger] builds[j]).id != target,
            None => forall|j: int| from <= j < builds.len() ==> (#[trigger] builds[j]).id != target,
        },
    decreases builds.len() - from,
{
    if from < builds.len() && builds[from].id != target {
        lemma_build_index_from(builds, target, from + 1);
    }
}

/// Law: the build found for a number is the first build with that number; where none has it,
/// none is found.
pub proof fn law_build_index(builds: Seq<BuildResponse>, target: Build)
    ensures
        match build_index(builds, target, 0) {
            Some(i) => 0 <= i < builds.len() && builds[i].id == target && forall|j: int|
                0 <= j < i ==> (#[trigger] builds[j]).id != target,
            None => forall|j: int| 0 <= j < builds.len() ==> (#[trigger] builds[j]).id != target,
        },
{
    lemma_build_index_from(builds, target, 0);
}

/// The search for a download, from `from` on.
proof fn lemma_download_index_from(downloads: Seq<(String, Download)>, key: Seq<char>, from: int)
    requires
        0 <= from,
    ensures
        match download_index(downloads, key, from) {
            Some(i) => from <= i < downloads.len() && downloads[i].0@ == key && forall|j: int|
                from <= j < i ==> (#[trigger] downloads[j]).0@ != key,
            None => forall|j: int| from <= j < downloads.len() ==> (#[trigger] downloads[j]).0@ != key,
        },
    decreases downloads.len() - from,
{
    if from < downloads.len() && downloads[from].0@ != key {
        lemma_download_index_from(downloads, key, from + 1);
    }
}

/// Law: the download found under a key is the one with that key (keys do not repeat); where
/// no download has it, none is found.
pub proof fn law_download_index(downloads: Seq<(String, Download)>, key: Seq<char>)
    ensures
        match download_index(downloads, key, 0) {
            Some(i) => 0 <= i < downloads.len() && downloads[i].0@ == key && forall|j: int|
                0 <= j < i ==> (#[trigger] downloads[j]).0@ != key,
            None => forall|j: int| 0 <= j < downloads.len() ==> (#[trigger] downloads[j]).0@ != key,
        },
{
    lemma_download_index_from(downloads, key, 0);
}

} // verus!
