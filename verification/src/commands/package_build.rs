//! The `build` subcommand: downloads the server JAR, generates the server's files and
//! installs the plugins the manifest lists.

use std::path::PathBuf;

use vstd::prelude::*;
use vstd::string::*;
use vstd::utf8::*;

use crate::manifest::{Manifest, Name, Plugin, Source};
use crate::package::server::{GetServerInfoError, ServerInfo};
use crate::paths::{
    adjoined, clone_path, display_text, lossy_text, path_bytes, path_from_text, push, relative_bytes,
};

verus! {

/// Arguments for the `build` subcommand.
pub struct Build {
    /// Run without committing changes
    pub dry: bool,
}

/// Whether the server JAR is the one the manifest asks for, from what asking it for its
/// version gave: a JAR that does not exist is not; any other failure is passed on.
pub fn jar_up_to_date(info: Result<ServerInfo, GetServerInfoError>, manifest: &Manifest) -> (res: Result<
    bool,
    GetServerInfoError,
>)
    ensures
        match info {
            Ok(target) => res == Ok::<bool, GetServerInfoError>(
                target.version == manifest@.server.version && target.build
                    == manifest@.server.build,
            ),
            Err(GetServerInfoError::NotExists) => res == Ok::<bool, GetServerInfoError>(false),
            Err(e) => res == Err::<bool, GetServerInfoError>(e),
        },
{
    match info {
        Ok(target) => Ok(target.version == *manifest.version() && target.build == manifest.build()),
        Err(GetServerInfoError::NotExists) => Ok(false),
        Err(err) => Err(err),
    }
}

/// The default file name of a plugin: its name with `.jar` after it.
pub open spec fn default_file_name(name: Seq<char>) -> Seq<char> {
    name + ".jar"@
}

/// The file a plugin is saved under: its `file` name, or `NAME.jar` where it has none.
pub open spec fn plugin_file_bytes(name: Seq<char>, file: Option<PathBuf>) -> Seq<u8> {
    match file {
        Some(f) => path_bytes(f),
        None => encode_utf8(default_file_name(name)),
    }
}

/// Where a plugin is installed: under its file name in the plugins directory; a file name that
/// is an absolute path is used as it is.
pub fn plugin_output(plugins_dir: &PathBuf, name: &Name, plugin: &Plugin) -> (output: PathBuf)
    ensures
        relative_bytes(plugin_file_bytes(name@, plugin.file)) ==> adjoined(
            path_bytes(*plugins_dir),
            plugin_file_bytes(name@, plugin.file),
            path_bytes(output),
        ),
        !relative_bytes(plugin_file_bytes(name@, plugin.file)) ==> path_bytes(output)
            == plugin_file_bytes(name@, plugin.file),
{
    let mut output = clone_path(plugins_dir);
    match &plugin.file {
        Some(file) => push(&mut output, file),
        None => {
            let mut file_name = String::from_str(name.as_str());
            file_name.append(".jar");
            push(&mut output, &path_from_text(file_name.as_str()));
        },
    }
    output
}

/// What is said while a plugin is installed: its name, and its version, its URL or the
/// path it is copied from.
pub open spec fn installing_text(name: Seq<char>, source: Source) -> Seq<char> {
    match source {
        Source::Registry { version, .. } => name + " ("@ + version@ + ")"@,
        Source::Url { .. } => name + " from URL"@,
        Source::Local { path } => name + " from "@ + lossy_text(path_bytes(path)),
    }
}

/// The message shown while a plugin is installed. A local path is shown as `Path::display`
/// shows it: its text, with replacement characters for bytes that are not valid UTF-8.
pub fn installing_message(name: &Name, source: &Source) -> (text: String)
    ensures
        text@ == installing_text(name@, *source),
{
    let mut text = String::from_str(name.as_str());
    match source {
        Source::Registry { version, .. } => {
            text.append(" (");
            text.append(version.as_str());
            text.append(")");
        },
        Source::Url { .. } => {
            text.append(" from URL");
        },
        Source::Local { path } => {
            text.append(" from ");
            text.append(display_text(path).as_str());
        },
    }
    text
}

/// The permission bits of `start.sh` once it is made executable: its bits, with read, write
/// and execute for the owner.
pub fn executable_mode(mode: u32) -> (res: u32)
    ensures
        res == mode | 0o700u32,
{
    mode | 0o700u32
}

/// The contents of `start.sh`, given the JVM flags.
pub open spec fn start_script_text(jvm_flags: Seq<char>) -> Seq<char> {
    "/usr/bin/env java\n\njava "@ + jvm_flags + " -jar server.jar --nogui"@
}

/// The contents of `start.sh`, given the JVM flags.
pub fn start_script(jvm_flags: &str) -> (script: String)
    ensures
        script@ == start_script_text(jvm_flags@),
{
    let mut script = String::from_str("/usr/bin/env java\n\njava ");
    script.append(jvm_flags);
    script.append(" -jar server.jar --nogui");
    script
}

} // verus!
