//! Requests to the Paper API: their addresses, and how their answers are read.

use vstd::prelude::*;
use vstd::string::*;

use super::build_number::Build;
use super::channel::{channel_name, Channel};
use super::project::{project_id, Project};
use super::version::{version_text, Version};
use crate::text::{decimal, push_decimal};

verus! {

/// HTTP client for the Paper API.
///
/// The requests themselves are sent by the application; the library builds their addresses
/// and reads their answers.
#[derive(Debug)]
pub struct PaperClient {
    pub http: reqwest::Client,
}

/// The address of the Paper API.
pub open spec fn base_url() -> Seq<char> {
    "https://fill.papermc.io/v3"@
}

/// The address of a project.
pub open spec fn project_url_spec(project: Project) -> Seq<char> {
    base_url() + "/projects/"@ + project_id(project)
}

/// The address of a version of a project.
pub open spec fn version_url_spec(project: Project, version: Version) -> Seq<char> {
    project_url_spec(project) + "/versions/"@ + version_text(version)
}

/// The query that keeps builds of the given channels: `channel=NAME` for each, joined by `&`.
pub open spec fn channels_query(channels: Seq<Channel>) -> Seq<char>
    decreases channels.len(),
{
    if channels.len() == 0 {
        Seq::empty()
    } else if channels.len() == 1 {
        "channel="@ + channel_name(channels[0])
    } else {
        channels_query(channels.drop_last()) + "&"@ + "channel="@ + channel_name(channels.last())
    }
}

/// The address of the builds of a version, kept to the given channels if there are any.
pub open spec fn builds_url_spec(project: Project, version: Version, channels: Seq<Channel>) -> Seq<
    char,
> {
    let url = version_url_spec(project, version) + "/builds"@;
    if channels.len() == 0 {
        url
    } else {
        url + "?"@ + channels_query(channels)
    }
}

/// How the status of an answer is taken.
#[derive(Debug, PartialEq, Eq, Structural)]
pub enum StatusOutcome {
    /// The body holds what was asked for.
    Body,
    /// What was asked for does not exist.
    NotFound,
    /// The status was not expected.
    Unexpected,
}

/// The address of the projects.
pub fn projects_url() -> (url: String)
    ensures
        url@ == base_url() + "/projects"@,
{
    String::from_str("https://fill.papermc.io/v3").concat("/projects")
}

/// The address of a project.
pub fn project_url(project: Project) -> (url: String)
    ensures
        url@ == project_url_spec(project),
{
    String::from_str("https://fill.papermc.io/v3").concat("/projects/").concat(project.as_str())
}

/// The address of the versions of a project.
pub fn versions_url(project: Project) -> (url: String)
    ensures
        url@ == project_url_spec(project) + "/versions"@,
{
    project_url(project).concat("/versions")
}

/// The address of a version of a project.
pub fn version_url(project: Project, version: &Version) -> (url: String)
    ensures
        url@ == version_url_spec(project, *version),
{
    let text = version.to_string();
    project_url(project).concat("/versions/").concat(text.as_str())
}

/// The address of the builds of a version, kept to the given channels if there are any.
pub fn builds_url(project: Project, version: &Version, channels: &[Channel]) -> (url: String)
    ensures
        url@ == builds_url_spec(project, *version, channels@),
{
    let url = version_url(project, version).concat("/builds");
    if channels.len() == 0 {
        return url;
    }
    let mut query = String::from_str("channel=").concat(channels[0].as_str());
    let mut i: usize = 1;
    proof {
        assert(channels@.take(1).drop_last() =~= Seq::<Channel>::empty());
    }
    while i < channels.len()
        invariant
            1 <= i <= channels@.len(),
            query@ == channels_query(channels@.take(i as int)),
        decreases channels@.len() - i,
    {
        query = query.concat("&").concat("channel=").concat(channels[i].as_str());
        proof {
            assert(channels@.take(i as int + 1).drop_last() =~= channels@.take(i as int));
        }
        i = i + 1;
    }
    proof {
        assert(channels@.take(channels@.len() as int) =~= channels@);
    }
    url.concat("?").concat(query.as_str())
}

/// The address of the newest build of a version.
pub fn build_latest_url(project: Project, version: &Version) -> (url: String)
    ensures
        url@ == version_url_spec(project, *version) + "/builds/latest"@,
{
    version_url(project, version).concat("/builds/latest")
}

/// The address of a build of a version.
pub fn build_url(project: Project, version: &Version, build: Build) -> (url: String)
    ensures
        url@ == version_url_spec(project, *version) + "/builds/"@ + decimal(build.0 as nat),
{
    let mut url = version_url(project, version).concat("/builds/");
    push_decimal(&mut url, build.0 as u64);
    url
}

/// How a general request takes a status: any success status means the body holds the answer.
pub fn success_outcome(code: u16) -> (outcome: StatusOutcome)
    ensures
        outcome == if 200 <= code <= 299 {
            StatusOutcome::Body
        } else {
            StatusOutcome::Unexpected
        },
{
    if 200 <= code && code <= 299 {
        StatusOutcome::Body
    } else {
        StatusOutcome::Unexpected
    }
}

/// How a request for a version or a build takes a status: `200 OK` means the body holds it,
/// `404 Not Found` that it does not exist.
pub fn lookup_outcome(code: u16) -> (outcome: StatusOutcome)
    ensures
        outcome == if code == 200 {
            StatusOutcome::Body
        } else if code == 404 {
            StatusOutcome::NotFound
        } else {
            StatusOutcome::Unexpected
        },
{
    if code == 200 {
        StatusOutcome::Body
    } else if code == 404 {
        StatusOutcome::NotFound
    } else {
        StatusOutcome::Unexpected
    }
}

} // verus!
