//! The `new` subcommand: creates a package for a Minecraft version and build.

use std::path::PathBuf;

use vstd::prelude::*;
use vstd::string::*;

use crate::paper::build_number::Build;
use crate::paper::version::{version_text, Version};
use crate::paths::{display_text, lossy_text, path_bytes};
use crate::text::{decimal, push_decimal};

verus! {

/// Arguments for the `new` subcommand.
pub struct New {
    pub path: PathBuf,
    /// Minecraft version to use. Default to latest version
    pub version: Option<Version>,
    /// Build number for server JAR. Defaults to latest build
    pub build: Option<Build>,
    /// Allow non-stable builds to be used
    pub allow_experimental: bool,
}

/// `Server created for Minecraft version VERSION (#BUILD)`.
pub open spec fn created_text(version: Version, build: Build) -> Seq<char> {
    "Server created for Minecraft version "@ + version_text(version) + " (#"@ + decimal(
        build.0 as nat,
    ) + ")"@
}

/// The message shown once the package is created.
pub fn created_message(version: &Version, build: Build) -> (text: String)
    ensures
        text@ == created_text(*version, build),
{
    let mut text = String::from_str("Server created for Minecraft version ");
    text.append(version.to_string().as_str());
    text.append(" (#");
    push_decimal(&mut text, build.0 as u64);
    text.append(")");
    text
}

/// Checks that no package exists yet where a new one is to be made; the error names the path
/// as `Path::display` shows it.
pub fn new_precheck(exists: bool, path: &PathBuf) -> (res: Result<(), String>)
    ensures
        !exists ==> res is Ok,
        exists ==> (res matches Err(m) && m@ == "Package already exists at: "@ + lossy_text(
            path_bytes(*path),
        )),
{
    if exists {
        let mut message = String::from_str("Package already exists at: ");
        message.append(display_text(path).as_str());
        Err(message)
    } else {
        Ok(())
    }
}

} // verus!
