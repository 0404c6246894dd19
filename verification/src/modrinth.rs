//! The Modrinth plugin repository: what is asked of it and what is read from its answers.

use std::path::PathBuf;

use vstd::prelude::*;
use vstd::string::*;

use crate::text::{eq_ignore_ascii_case, same_ignoring_ascii_case};

verus! {

/// Response to a Search Projects request.
#[derive(Debug, Clone)]
pub struct Project {
    /// Unique identifier for the project.
    pub id: String,
    /// Name of the project.
    pub name: String,
}

/// A Search Projects request.
#[derive(Debug)]
pub struct SearchRequest<'a> {
    /// Name of the plugin to search for.
    pub name: &'a str,
}

/// A List Versions request.
#[derive(Debug, Clone, Copy)]
pub struct ListVersionsRequest<'a> {
    /// Unique identifier for the plugin.
    pub id: &'a str,
    /// Target Minecraft version.
    pub version: &'a str,
    /// Whether to include non-release builds.
    pub allow_experimental: bool,
}

/// A version of a plugin, with the file to download for it.
#[derive(Debug)]
pub struct Version {
    pub kind: VersionKind,
    pub file: Option<File>,
}

/// How stable a version is.
#[derive(Debug, Clone, Copy, PartialEq, Eq, Structural)]
pub enum VersionKind {
    Release,
    Beta,
    Alpha,
}

/// A file to download.
#[derive(Debug)]
pub struct File {
    pub file_name: PathBuf,
    pub url: String,
}

/// A version as the List Versions response describes it.
#[derive(Debug)]
pub struct VersionResponse {
    pub version_type: VersionKind,
    pub files: Vec<FileResponse>,
}

/// A file as the List Versions response describes it.
#[derive(Debug)]
pub struct FileResponse {
    pub filename: PathBuf,
    pub url: String,
    pub primary: bool,
}

/// The position of the first project named `name`, without regard to ASCII case.
pub open spec fn first_named(projects: Seq<Project>, name: Seq<char>, from: int) -> Option<int>
    decreases projects.len() - from,
{
    if from < 0 || from >= projects.len() {
        None
    } else if same_ignoring_ascii_case(name, projects[from].name@) {
        Some(from)
    } else {
        first_named(projects, name, from + 1)
    }
}

/// The project among the search results whose name is `name` without regard to ASCII case: the
/// first such.
pub fn find_project(projects: Vec<Project>, name: &str) -> (found: Option<Project>)
    ensures
        match first_named(projects@, name@, 0) {
            Some(i) => found == Some(projects@[i]),
            None => found is None,
        },
{
    let mut list = projects;
    let ghost all = list@;
    let mut i: usize = 0;
    while i < list.len()
        invariant
            list@ == all,
            all == projects@,
            i <= all.len(),
            first_named(all, name@, 0) == first_named(all, name@, i as int),
        decreases all.len() - i,
    {
        if eq_ignore_ascii_case(name, list[i].name.as_str()) {
            proof {
                assert(same_ignoring_ascii_case(name@, all[i as int].name@));
                assert(first_named(all, name@, i as int) == Some(i as int));
            }
            let found = list.remove(i);
            assert(found == all[i as int]);
            return Some(found);
        }
        i = i + 1;
    }
    None
}

/// The position of the first file marked primary.
pub open spec fn first_primary(files: Seq<FileResponse>, from: int) -> Option<int>
    decreases files.len() - from,
{
    if from < 0 || from >= files.len() {
        None
    } else if files[from].primary {
        Some(from)
    } else {
        first_primary(files, from + 1)
    }
}

/// The file to download for a version: its first primary file, or else its first file.
pub open spec fn chosen_file(files: Seq<FileResponse>) -> Option<File> {
    match first_primary(files, 0) {
        Some(i) => Some(File { file_name: files[i].filename, url: files[i].url }),
        None => if files.len() > 0 {
            Some(File { file_name: files[0].filename, url: files[0].url })
        } else {
            None
        },
    }
}

/// Whether a version is kept: every version when experimental ones are allowed, else releases.
pub open spec fn kept(response: VersionResponse, allow_experimental: bool) -> bool {
    allow_experimental || response.version_type == VersionKind::Release
}

/// The versions kept from a List Versions response, in its order, each with its chosen file.
pub open spec fn selected_versions(responses: Seq<VersionResponse>, allow_experimental: bool) -> Seq<
    Version,
>
    decreases responses.len(),
{
    if responses.len() == 0 {
        Seq::empty()
    } else {
        let rest = selected_versions(responses.drop_last(), allow_experimental);
        let r = responses.last();
        if kept(r, allow_experimental) {
            rest.push(Version { kind: r.version_type, file: chosen_file(r.files@) })
        } else {
            rest
        }
    }
}

/// Picks the file to download among a version's files.
fn choose_file(files: Vec<FileResponse>) -> (file: Option<File>)
    ensures
        file == chosen_file(files@),
{
    let mut list = files;
    let ghost all = list@;
    let mut i: usize = 0;
    while i < list.len()
        invariant
            list@ == all,
            all == files@,
            i <= all.len(),
            first_primary(all, 0) == first_primary(all, i as int),
        decreases all.len() - i,
    {
        if list[i].primary {
            proof {
                assert(first_primary(all, i as int) == Some(i as int));
            }
            let f = list.remove(i);
            assert(f == all[i as int]);
            return Some(File { file_name: f.filename, url: f.url });
        }
        i = i + 1;
    }
    if list.len() > 0 {
        let f = list.remove(0);
        Some(File { file_name: f.filename, url: f.url })
    } else {
        None
    }
}

/// The versions of a List Versions response that a request asks for: all of them when it allows
/// experimental ones, else the releases; each with its primary file, or its first file.
/// Versions keep the order of the response (newest first).
pub fn select_versions(responses: Vec<VersionResponse>, allow_experimental: bool) -> (versions: Vec<
    Version,
>)
    ensures
        versions@ == selected_versions(responses@, allow_experimental),
{
    let mut rest = responses;
    let ghost all = rest@;
    assert(all == responses@);
    let total = rest.len();
    let mut out: Vec<Version> = Vec::new();
    let mut k: usize = 0;
    while rest.len() > 0
        invariant
            k <= all.len(),
            rest@ == all.skip(k as int),
            k + rest@.len() == all.len(),
            total == all.len(),
            out@ == selected_versions(all.take(k as int), allow_experimental),
        decreases rest@.len(),
    {
        let r = rest.remove(0);
        proof {
            assert(all.take(k as int + 1).drop_last() =~= all.take(k as int));
            assert(all.take(k as int + 1).last() == r);
            assert(rest@ =~= all.skip(k as int + 1));
        }
        if allow_experimental || r.version_type == VersionKind::Release {
            let kind = r.version_type;
            let file = choose_file(r.files);
            out.push(Version { kind, file });
        }
        k = k + 1;
    }
    proof {
        assert(all.take(k as int) =~= all);
    }
    out
}

/// The position of the first version that has a file to download.
pub open spec fn first_with_file_index(versions: Seq<Version>, from: int) -> Option<int>
    decreases versions.len() - from,
{
    if from < 0 || from >= versions.len() {
        None
    } else if versions[from].file is Some {
        Some(from)
    } else {
        first_with_file_index(versions, from + 1)
    }
}

/// The first version that has a file to download.
pub fn first_with_file(versions: Vec<Version>) -> (found: Option<Version>)
    ensures
        match first_with_file_index(versions@, 0) {
            Some(i) => found == Some(versions@[i]),
            None => found is None,
        },
{
    let mut list = versions;
    let ghost all = list@;
    let mut i: usize = 0;
    while i < list.len()
        invariant
            list@ == all,
            all == versions@,
            i <= all.len(),
            first_with_file_index(all, 0) == first_with_file_index(all, i as int),
        decreases all.len() - i,
    {
        if list[i].file.is_some() {
            proof {
                assert(first_with_file_index(all, i as int) == Some(i as int));
            }
            let found = list.remove(i);
            assert(found == all[i as int]);
            return Some(found);
        }
        i = i + 1;
    }
    None
}

/// The address of the Modrinth API.
pub open spec fn base_url() -> Seq<char> {
    "https://api.modrinth.com/v2"@
}

/// The address of the Search Projects endpoint.
pub fn search_url() -> (url: String)
    ensures
        url@ == base_url() + "/search"@,
{
    let url = String::from_str("https://api.modrinth.com/v2").concat("/search");
    proof {
        reveal_strlit("https://api.modrinth.com/v2");
    }
    url
}

/// The facets of a search: Paper plugins.
pub fn search_facets() -> (facets: &'static str)
    ensures
        facets@ == "[[\"categories:paper\"],[\"project_type:plugin\"]]"@,
{
    "[[\"categories:paper\"],[\"project_type:plugin\"]]"
}

/// The address of the List Versions endpoint of a project.
pub fn list_versions_url(id: &str) -> (url: String)
    ensures
        url@ == base_url() + "/project/"@ + id@ + "/version"@,
{
    String::from_str("https://api.modrinth.com/v2").concat("/project/").concat(id).concat("/version")
}

/// The `game_versions` filter of a List Versions request: a JSON list holding the version.
pub fn game_versions_filter(version: &str) -> (filter: String)
    ensures
        filter@ == "[\""@ + version@ + "\"]"@,
{
    String::from_str("[\"").concat(version).concat("\"]")
}

} // verus!

verus! {

/// The search for the first version with a file, from `from` on.
proof fn lemma_first_with_file_from(versions: Seq<Version>, from: int)
    requires
        0 <= from,
    ensures
        match first_with_file_index(versions, from) {
            Some(i) => from <= i < versions.len() && versions[i].file is Some && forall|j: int|
                from <= j < i ==> #[trigger] versions[j].file is None,
            None => forall|j: int| from <= j < versions.len() ==> #[trigger] versions[j].file is None,
        },
    decreases versions.len() - from,
{
    if from < versions.len() && versions[from].file is None {
        lemma_first_with_file_from(versions, from + 1);
    }
}

/// Law: the version chosen for download is the first (the newest, as Modrinth lists them
/// newest first) that has a file: it has one, and every version before it has none. Where no
/// version has a file, none is chosen.
pub proof fn law_first_with_file(versions: Seq<Version>)
    ensures
        match first_with_file_index(versions, 0) {
            Some(i) => 0 <= i < versions.len() && versions[i].file is Some && forall|j: int|
                0 <= j < i ==> #[trigger] versions[j].file is None,
            None => forall|j: int| 0 <= j < versions.len() ==> #[trigger] versions[j].file is None,
        },
{
    lemma_first_with_file_from(versions, 0);
}

/// The search for the first project with a name, from `from` on.
proof fn lemma_first_named_from(projects: Seq<Project>, name: Seq<char>, from: int)
    requires
        0 <= from,
    ensures
        match first_named(projects, name, from) {
            Some(i) => from <= i < projects.len() && same_ignoring_ascii_case(name, projects[i].name@)
                && forall|j: int| from <= j < i ==> !same_ignoring_ascii_case(name, #[trigger] projects[j].name@),
            None => forall|j: int| from <= j < projects.len() ==> !same_ignoring_ascii_case(name, #[trigger] projects[j].name@),
        },
    decreases projects.len() - from,
{
    if from < projects.len() && !same_ignoring_ascii_case(name, projects[from].name@) {
        lemma_first_named_from(projects, name, from + 1);
    }
}

/// Law: the project found for a name is the first search result whose name matches it without
/// regard to ASCII case; where none matches, none is found.
pub proof fn law_first_named(projects: Seq<Project>, name: Seq<char>)
    ensures
        match first_named(projects, name, 0) {
            Some(i) => 0 <= i < projects.len() && same_ignoring_ascii_case(name, projects[i].name@)
                && forall|j: int| 0 <= j < i ==> !same_ignoring_ascii_case(name, #[trigger] projects[j].name@),
            None => forall|j: int| 0 <= j < projects.len() ==> !same_ignoring_ascii_case(name, #[trigger] projects[j].name@),
        },
{
    lemma_first_named_from(projects, name, 0);
}

/// The search for the first primary file, from `from` on.
proof fn lemma_first_primary_from(files: Seq<FileResponse>, from: int)
    requires
        0 <= from,
    ensures
        match first_primary(files, from) {
            Some(i) => from <= i < files.len() && files[i].primary && forall|j: int|
                from <= j < i ==> !(#[trigger] files[j]).primary,
            None => forall|j: int| from <= j < files.len() ==> !(#[trigger] files[j]).primary,
        },
    decreases files.len() - from,
{
    if from < files.len() && !files[from].primary {
        lemma_first_primary_from(files, from + 1);
    }
}

/// Law: the file downloaded for a version is its first file marked primary; where no file is
/// primary, its first file; where it has no files, none.
pub proof fn law_chosen_file(files: Seq<FileResponse>)
    ensures
        files.len() == 0 ==> chosen_file(files) is None,
        forall|k: int|
            0 <= k < files.len() && (#[trigger] files[k]).primary && (forall|j: int| 0 <= j < k ==> !(#[trigger] files[j]).primary)
                ==> chosen_file(files) == Some(File { file_name: files[k].filename, url: files[k].url }),
        files.len() > 0 && (forall|j: int| 0 <= j < files.len() ==> !(#[trigger] files[j]).primary)
            ==> chosen_file(files) == Some(File { file_name: files[0].filename, url: files[0].url }),
{
    lemma_first_primary_from(files, 0);
}

/// What a kept response becomes: its kind, and the file chosen among its files.
pub open spec fn as_version(r: VersionResponse) -> Version {
    Version { kind: r.version_type, file: chosen_file(r.files@) }
}

/// Law: the versions selected from a response are those it allows (all of them where
/// experimental ones are allowed, else the releases), in the response's order, each with its
/// kind and the file chosen among its files.
pub proof fn law_selected_versions(responses: Seq<VersionResponse>, allow_experimental: bool)
    ensures
        selected_versions(responses, allow_experimental) == responses.filter(
            |r: VersionResponse| allow_experimental || r.version_type == VersionKind::Release,
        ).map_values(|r: VersionResponse| as_version(r)),
    decreases responses.len(),
{
    reveal(Seq::filter);
    let pred = |r: VersionResponse| allow_experimental || r.version_type == VersionKind::Release;
    if responses.len() > 0 {
        law_selected_versions(responses.drop_last(), allow_experimental);
        let sub = responses.drop_last().filter(pred);
        if pred(responses.last()) {
            assert(sub.push(responses.last()).map_values(|r: VersionResponse| as_version(r)) =~= sub.map_values(
                |r: VersionResponse| as_version(r),
            ).push(as_version(responses.last())));
        }
    } else {
        assert(responses.filter(pred).map_values(|r: VersionResponse| as_version(r)) =~= Seq::<
            Version,
        >::empty());
    }
}

} // verus!
