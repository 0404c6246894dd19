//! The `start` subcommand: runs `start.sh` in a tmux window and watches the log until the
//! server says how the start went.

use vstd::prelude::*;
use vstd::string::*;

use crate::notifier::Action;
use crate::paths::{clone_path, path_bytes};
use crate::text::{contains_text, occurs};
use crate::tmux::{CreateSessionOptions, CreateWindowOptions};
use crate::watcher::{first_status, lemma_first_status_skip, Status};

verus! {

/// Arguments for the `start` subcommand.
pub struct Start;

/// The line a server logs once it listens for connections ends its start-up time with this.
pub open spec fn ready_marker() -> Seq<char> {
    "s)! For help, type \"help\""@
}

/// The line a server logs when it could not start holds this.
pub open spec fn failure_marker() -> Seq<char> {
    "Failed to start the minecraft server"@
}

/// What a line of the log says of a start.
pub open spec fn start_line_status(line: Seq<char>) -> Option<Status> {
    if occurs(line, ready_marker()) {
        Some(Status::Success)
    } else if occurs(line, failure_marker()) {
        Some(Status::Failure)
    } else {
        None
    }
}

/// Reads what a line of the log says of a start.
pub fn handler(line: &str) -> (status: Option<Status>)
    ensures
        status == start_line_status(line@),
{
    if contains_text(line, "s)! For help, type \"help\"") {
        return Some(Status::Success);
    } else if contains_text(line, "Failed to start the minecraft server") {
        return Some(Status::Failure);
    }
    None
}

/// What the lines read say of a start: the first line that says anything.
pub fn scan_start_log(lines: &Vec<String>) -> (status: Option<Status>)
    ensures
        status == first_status(
            lines@.map_values(|l: String| l@),
            |l: Seq<char>| start_line_status(l),
        ),
{
    let ghost all = lines@.map_values(|l: String| l@);
    let ghost classify = |l: Seq<char>| start_line_status(l);
    let mut i: usize = 0;
    proof {
        assert(all.skip(0) =~= all);
    }
    while i < lines.len()
        invariant
            all == lines@.map_values(|l: String| l@),
            classify == (|l: Seq<char>| start_line_status(l)),
            i <= lines@.len(),
            first_status(all, classify) == first_status(all.skip(i as int), classify),
        decreases lines@.len() - i,
    {
        proof {
            lemma_first_status_skip(all, classify, i as int);
        }
        let found = handler(lines[i].as_str());
        if found.is_some() {
            return found;
        }
        i = i + 1;
    }
    proof {
        assert(all.skip(i as int) =~= Seq::<Seq<char>>::empty());
    }
    None
}

/// The command run in the window of a server.
pub open spec fn start_command() -> Seq<char> {
    "./start.sh"@
}

/// How a server is launched: `./start.sh`, detached, in the server's directory; first in a
/// new window of the session, and, where the session does not exist yet, in a new session
/// with that window.
pub fn launch_options(current_dir: std::path::PathBuf) -> (opts: (CreateWindowOptions, CreateSessionOptions))
    ensures
        opts.0.detached && opts.1.detached,
        opts.0.current_dir matches Some(d) && path_bytes(d) == path_bytes(current_dir),
        opts.1.current_dir matches Some(d) && path_bytes(d) == path_bytes(current_dir),
        opts.0.command matches Some(c) && c@ == start_command(),
        opts.1.command matches Some(c) && c@ == start_command(),
{
    let command = String::from_str("./start.sh");
    let window_opts = CreateWindowOptions {
        detached: true,
        current_dir: Some(clone_path(&current_dir)),
        command: Some(command.clone()),
    };
    let session_opts = CreateSessionOptions {
        detached: true,
        current_dir: Some(current_dir),
        command: Some(command),
    };
    (window_opts, session_opts)
}

/// What the user is told once the watch of a start has ended: a message, or the error the
/// command fails with.
pub open spec fn start_report_spec(status: Status) -> Result<(Action, Seq<char>), Seq<char>> {
    match status {
        Status::PreHook => Err("tmux window closed; start.sh ended early"@),
        Status::Success => Ok((Action::Finished, "Server is listening for connections"@)),
        Status::Failure => Err("failed to start the server; see server/logs/latest.log"@),
        Status::TimeOut => Ok((Action::Warning, "Timed out while waiting for server to start"@)),
    }
}

/// Tells what the user is told once the watch of a start has ended.
pub fn start_report(status: Status) -> (report: Result<(Action, &'static str), &'static str>)
    ensures
        match (report, start_report_spec(status)) {
            (Ok((a, m)), Ok((b, n))) => a == b && m@ == n,
            (Err(m), Err(n)) => m@ == n,
            _ => false,
        },
{
    match status {
        Status::PreHook => Err("tmux window closed; start.sh ended early"),
        Status::Success => Ok((Action::Finished, "Server is listening for connections")),
        Status::Failure => Err("failed to start the server; see server/logs/latest.log"),
        Status::TimeOut => Ok((Action::Warning, "Timed out while waiting for server to start")),
    }
}

/// The message of the error a start fails with where the server directory is missing.
pub open spec fn no_server_dir_text() -> Seq<char> {
    "server directory not found; try running the `build` command first"@
}

/// What is checked before a server is launched, in order: its directory exists, its `start.sh`
/// exists, and it is not running already. A missing file fails the start with a message; a
/// running server ends it with a warning; otherwise the server is launched (`Ok(None)`).
pub open spec fn start_precheck_spec(server_dir: bool, start_sh: bool, running: bool) -> Result<
    Option<(Action, Seq<char>)>,
    Seq<char>,
> {
    if !server_dir {
        Err(no_server_dir_text())
    } else if !start_sh {
        Err("start.sh not found"@)
    } else if running {
        Ok(Some((Action::Warning, "Server is already running"@)))
    } else {
        Ok(None)
    }
}

/// Decides, from what was checked before a server is launched, whether to go on.
pub fn start_precheck(server_dir: bool, start_sh: bool, running: bool) -> (res: Result<
    Option<(Action, &'static str)>,
    &'static str,
>)
    ensures
        match (res, start_precheck_spec(server_dir, start_sh, running)) {
            (Ok(None), Ok(None)) => true,
            (Ok(Some((a, m))), Ok(Some((b, n)))) => a == b && m@ == n,
            (Err(m), Err(n)) => m@ == n,
            _ => false,
        },
{
    if !server_dir {
        Err("server directory not found; try running the `build` command first")
    } else if !start_sh {
        Err("start.sh not found")
    } else if running {
        Ok(Some((Action::Warning, "Server is already running")))
    } else {
        Ok(None)
    }
}

} // verus!
