//! The `update` subcommand: moves the manifest to another Minecraft version and build.
//!
//! Finding the version and build asks the Paper API in turns; the application sends the
//! requests, and the choices between them are taken here.

use vstd::prelude::*;
use vstd::string::*;

use crate::package::server::ServerInfo;
use crate::paper::build_number::Build;
use crate::paper::model::BuildResponse;
use crate::paper::version::{version_lt, version_text, Version};
use crate::paper::Channel;
use crate::text::{decimal, push_decimal};

verus! {

/// Arguments for the `update` subcommand.
pub struct Update {
    /// Minecraft version to use. Default to latest version
    pub version: Option<Version>,
    /// Build number for server JAR. Defaults to latest build
    pub build: Option<Build>,
    /// Allow non-stable builds to be used
    pub allow_experimental: bool,
    /// Run without committing changes
    pub dry: bool,
}

/// Why no server could be resolved.
#[derive(Debug, PartialEq, Eq, Structural)]
pub enum ResolveError {
    /// No supported version is the one asked for.
    InvalidVersion,
    /// No build of the version has the number asked for.
    InvalidBuild,
    /// The version asked for has no builds.
    NoBuilds(Version),
    /// No supported version has a build.
    Exhausted,
}

/// The channels builds are taken from: all of them where experimental builds are allowed,
/// only the stable one otherwise.
pub fn build_channels(allow_experimental: bool) -> (channels: Vec<Channel>)
    ensures
        channels@ == if allow_experimental {
            Seq::<Channel>::empty()
        } else {
            seq![Channel::Stable]
        },
{
    if allow_experimental {
        Vec::new()
    } else {
        let channels = vec![Channel::Stable];
        proof {
            assert(channels@ =~= seq![Channel::Stable]);
        }
        channels
    }
}

/// The newest build of a version among its builds (newest first), with the version.
pub fn newest_build(version: Version, builds: &Vec<BuildResponse>) -> (info: Option<ServerInfo>)
    ensures
        match info {
            Some(i) => builds@.len() > 0 && i.version == version && i.build == builds@[0].id,
            None => builds@.len() == 0,
        },
{
    if builds.len() == 0 {
        None
    } else {
        Some(ServerInfo { version, build: builds[0].id })
    }
}

/// Whether moving from `current` to `new` goes back to an older version.
pub fn is_downgrade(new: &Version, current: &Version) -> (res: bool)
    ensures
        res == version_lt(*new, *current),
{
    *new < *current
}

/// `Server updated to Minecraft version VERSION (#BUILD)`.
pub open spec fn updated_text(version: Version, build: Build) -> Seq<char> {
    "Server updated to Minecraft version "@ + version_text(version) + " (#"@ + decimal(
        build.0 as nat,
    ) + ")"@
}

/// The message shown once the manifest is updated.
pub fn updated_message(version: &Version, build: Build) -> (text: String)
    ensures
        text@ == updated_text(*version, build),
{
    let mut text = String::from_str("Server updated to Minecraft version ");
    text.append(version.to_string().as_str());
    text.append(" (#");
    push_decimal(&mut text, build.0 as u64);
    text.append(")");
    text
}

impl ResolveError {
    /// What went wrong, in words.
    pub fn message(&self) -> (text: String)
        ensures
            text@ == match *self {
                ResolveError::InvalidVersion => "invalid Minecraft version provided"@,
                ResolveError::InvalidBuild => "invalid build provided"@,
                ResolveError::NoBuilds(v) => "no builds found for version "@ + version_text(v),
                ResolveError::Exhausted => "exhausted all potential Minecraft versions"@,
            },
    {
        match self {
            ResolveError::InvalidVersion => String::from_str("invalid Minecraft version provided"),
            ResolveError::InvalidBuild => String::from_str("invalid build provided"),
            ResolveError::NoBuilds(v) => {
                let mut text = String::from_str("no builds found for version ");
                text.append(v.to_string().as_str());
                text
            },
            ResolveError::Exhausted => String::from_str("exhausted all potential Minecraft versions"),
        }
    }
}

/// Where the walk over the supported versions (newest first) stands.
#[derive(Debug)]
pub enum WalkStep {
    /// The version has a build: the walk ends with its newest one.
    Found(ServerInfo),
    /// Look at the next version.
    Next,
    /// No version is left: none has a build.
    Exhausted,
}

/// How the walk over `count` versions begins: with the first one, where there is any.
pub fn walk_begin(count: usize) -> (step: WalkStep)
    ensures
        count == 0 ==> step is Exhausted,
        count > 0 ==> step is Next,
{
    if count == 0 {
        WalkStep::Exhausted
    } else {
        WalkStep::Next
    }
}

/// One step of the walk, at a version whose builds were fetched, with `remaining` versions
/// after it: the first version with a build gives its newest build; past the last version,
/// the walk is exhausted.
pub fn walk_step(version: Version, builds: &Vec<BuildResponse>, remaining: usize) -> (step: WalkStep)
    ensures
        builds@.len() > 0 ==> (step matches WalkStep::Found(info) && info.version == version
            && info.build == builds@[0].id),
        builds@.len() == 0 && remaining > 0 ==> step is Next,
        builds@.len() == 0 && remaining == 0 ==> step is Exhausted,
{
    match newest_build(version, builds) {
        Some(info) => WalkStep::Found(info),
        None => if remaining > 0 {
            WalkStep::Next
        } else {
            WalkStep::Exhausted
        },
    }
}

} // verus!
