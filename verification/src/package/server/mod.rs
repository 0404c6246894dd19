//! The `server` subdirectory of a package: a Minecraft server JAR and its configuration files.

pub mod jar;
pub mod properties;

use std::path::PathBuf;

use vstd::prelude::*;
use vstd::string::*;

pub use jar::{GetServerInfoError, Jar, ServerInfo};
pub use properties::{GetValueError, Properties};

use crate::paths::{join, joined_as, path_bytes, separator};
use vstd::utf8::*;
use crate::text::{push_signed, replace_all, replaced, signed_decimal};

verus! {

/// A Minecraft server JAR and all of its configuration files.
#[derive(Debug)]
pub struct Server {
    path: PathBuf,
}

impl View for Server {
    type V = PathBuf;

    /// Where the server directory lies.
    closed spec fn view(&self) -> PathBuf {
        self.path
    }
}

impl Server {
    pub fn new(path: PathBuf) -> (server: Self)
        ensures
            server@ == path,
    {
        Self { path }
    }

    pub fn path(&self) -> (path: &PathBuf)
        ensures
            *path == self@,
    {
        &self.path
    }

    /// The server JAR, `server.jar`.
    pub fn jar(&self) -> (jar: Jar)
        ensures
            joined_as(self@, "server.jar"@, jar@),
    {
        proof {
            reveal_strlit("server.jar");
        }
        Jar::new(join(&self.path, "server.jar"))
    }

    /// The `server.properties` file.
    pub fn properties(&self) -> (properties: Properties)
        ensures
            joined_as(self@, "server.properties"@, properties@),
    {
        proof {
            reveal_strlit("server.properties");
        }
        Properties::new(join(&self.path, "server.properties"))
    }

    /// The `eula.txt` file.
    pub fn eula(&self) -> (eula: PathBuf)
        ensures
            joined_as(self@, "eula.txt"@, eula),
    {
        proof {
            reveal_strlit("eula.txt");
        }
        join(&self.path, "eula.txt")
    }

    /// The `plugins` directory.
    pub fn plugins(&self) -> (plugins: PathBuf)
        ensures
            joined_as(self@, "plugins"@, plugins),
    {
        proof {
            reveal_strlit("plugins");
        }
        join(&self.path, "plugins")
    }

    /// The `logs` directory.
    pub fn logs(&self) -> (logs: PathBuf)
        ensures
            joined_as(self@, "logs"@, logs),
    {
        proof {
            reveal_strlit("logs");
        }
        join(&self.path, "logs")
    }

    /// The `latest.log` file of the `logs` directory.
    pub fn latest_log(&self) -> (log: PathBuf)
        ensures
            exists|logs: PathBuf| joined_as(self@, "logs"@, logs) && joined_as(logs, "latest.log"@, log),
            path_bytes(self@).len() > 0 && path_bytes(self@).last() != separator() ==> path_bytes(
                log,
            ) == path_bytes(self@) + seq![separator()] + encode_utf8("logs"@) + seq![separator()]
                + encode_utf8("latest.log"@),
    {
        let logs = self.logs();
        proof {
            reveal_strlit("latest.log");
            reveal_strlit("logs");
            let name = "logs"@;
            assert(is_ascii_chars(name)) by {
                assert forall|i: int| 0 <= i < name.len() implies '\0' <= #[trigger] name[i] <= '\u{7f}' by {
                    assert(name == seq!['l', 'o', 'g', 's']);
                }
            }
            is_ascii_chars_encode_utf8(name);
            assert(name[3] as u8 == encode_utf8(name)[3]);
        }
        let path = join(&logs, "latest.log");
        assert(joined_as(self@, "logs"@, logs) && joined_as(logs, "latest.log"@, path));
        path
    }

    /// The start script, `start.sh`.
    pub fn start_sh(&self) -> (start_sh: PathBuf)
        ensures
            joined_as(self@, "start.sh"@, start_sh),
    {
        proof {
            reveal_strlit("start.sh");
        }
        join(&self.path, "start.sh")
    }
}

/// The contents of `eula.txt` with the EULA accepted: every `eula=false` made `eula=true`.
pub fn accepted_eula(contents: &str) -> (accepted: String)
    ensures
        accepted@ == replaced(contents@, "eula=false"@, "eula=true"@),
{
    proof {
        reveal_strlit("eula=false");
    }
    replace_all(contents, "eula=false", "eula=true")
}

/// Describes an error that occurred while generating the initial server files.
#[derive(Debug)]
pub enum InitialFilesError {
    /// I/O error occurred
    Io { source: std::io::Error },
    /// Path to server JAR contains invalid Unicode
    InvalidPath,
    /// Server JAR not found
    NotExists,
    /// Failed to execute a child process
    CommandExecutionFailed { source: std::io::Error },
    /// Child process returned a non-zero exit code
    Status { code: i32 },
    /// Child process was terminated via signal
    Terminated,
}

impl InitialFilesError {
    /// What went wrong, in words.
    pub fn message(&self) -> (text: String)
        ensures
            text@ == match *self {
                InitialFilesError::Io { .. } => "I/O error occurred"@,
                InitialFilesError::InvalidPath => "path to server JAR contained invalid unicode"@,
                InitialFilesError::NotExists => "server JAR not found"@,
                InitialFilesError::CommandExecutionFailed { .. } => "failed to execute command"@,
                InitialFilesError::Status { code } => "process exited with non-zero exit code: "@
                    + signed_decimal(code as int),
                InitialFilesError::Terminated => "process terminated via signal"@,
            },
    {
        match self {
            InitialFilesError::Io { .. } => String::from_str("I/O error occurred"),
            InitialFilesError::InvalidPath => String::from_str("path to server JAR contained invalid unicode"),
            InitialFilesError::NotExists => String::from_str("server JAR not found"),
            InitialFilesError::CommandExecutionFailed { .. } => String::from_str("failed to execute command"),
            InitialFilesError::Status { code } => {
                let mut text = String::from_str("process exited with non-zero exit code: ");
                push_signed(&mut text, *code);
                text
            },
            InitialFilesError::Terminated => String::from_str("process terminated via signal"),
        }
    }
}

/// How the exit of the run that generates the initial files is read: code zero is success.
pub fn initial_files_outcome(code: Option<i32>) -> (res: Result<(), InitialFilesError>)
    ensures
        match code {
            Some(0i32) => res is Ok,
            Some(c) => res matches Err(InitialFilesError::Status { code: d }) && d == c,
            None => res matches Err(InitialFilesError::Terminated),
        },
{
    match code {
        Some(0i32) => Ok(()),
        Some(c) => Err(InitialFilesError::Status { code: c }),
        None => Err(InitialFilesError::Terminated),
    }
}

} // verus!
