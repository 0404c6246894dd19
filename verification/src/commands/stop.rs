//! The `stop` subcommand: types `stop` into the server's console and watches the log until
//! the server says it is stopping.

use vstd::prelude::*;
use vstd::string::*;

use crate::notifier::Action;
use crate::text::{contains_text, occurs};
use crate::watcher::{first_status, lemma_first_status_skip, watch_outcome, Status, WatchEvent};

verus! {

/// Arguments for the `stop` subcommand.
pub struct Stop;

/// The command typed into the console of a running server.
pub open spec fn stop_command() -> Seq<char> {
    "stop"@
}

/// The command typed into the console of a running server.
pub fn stop_keys() -> (keys: &'static str)
    ensures
        keys@ == stop_command(),
{
    "stop"
}

/// What a line of the log says of a stop.
pub open spec fn stop_line_status(line: Seq<char>) -> Option<Status> {
    if occurs(line, "Stopping server"@) {
        Some(Status::Success)
    } else {
        None
    }
}

/// Reads what a line of the log says of a stop.
pub fn handler(line: &str) -> (status: Option<Status>)
    ensures
        status == stop_line_status(line@),
{
    if contains_text(line, "Stopping server") {
        return Some(Status::Success);
    }
    None
}

/// What the lines read say of a stop: the first line that says anything.
pub fn scan_stop_log(lines: &Vec<String>) -> (status: Option<Status>)
    ensures
        status == first_status(
            lines@.map_values(|l: String| l@),
            |l: Seq<char>| stop_line_status(l),
        ),
{
    let ghost all = lines@.map_values(|l: String| l@);
    let ghost classify = |l: Seq<char>| stop_line_status(l);
    let mut i: usize = 0;
    proof {
        assert(all.skip(0) =~= all);
    }
    while i < lines.len()
        invariant
            all == lines@.map_values(|l: String| l@),
            classify == (|l: Seq<char>| stop_line_status(l)),
            i <= lines@.len(),
            first_status(all, classify) == first_status(all.skip(i as int), classify),
        decreases lines@.len() - i,
    {
        proof {
            lemma_first_status_skip(all, classify, i as int);
        }
        let found = handler(lines[i].as_str());
        if found.is_some() {
            return found;
        }
        i = i + 1;
    }
    proof {
        assert(all.skip(i as int) =~= Seq::<Seq<char>>::empty());
    }
    None
}

/// What the user is told once the watch of a stop has ended. The watch of a stop has no
/// check before each attempt and its lines tell only of success, so it ends in success or
/// in a time-out.
pub open spec fn stop_report_spec(status: Status) -> (Action, Seq<char>) {
    match status {
        Status::Success => (Action::Finished, "Server is listening for connections"@),
        _ => (Action::Warning, "Timed out while waiting for server to start"@),
    }
}

/// Tells what the user is told once the watch of a stop has ended.
pub fn stop_report(status: Status) -> (report: (Action, &'static str))
    requires
        status == Status::Success || status == Status::TimeOut,
    ensures
        report.0 == stop_report_spec(status).0,
        report.1@ == stop_report_spec(status).1,
{
    match status {
        Status::Success => (Action::Finished, "Server is listening for connections"),
        _ => (Action::Warning, "Timed out while waiting for server to start"),
    }
}

/// The lines of the log tell a stop's success, or nothing.
pub proof fn law_stop_scan_tells_success_or_nothing(lines: Seq<Seq<char>>)
    ensures
        first_status(lines, |l: Seq<char>| stop_line_status(l)) is None || first_status(
            lines,
            |l: Seq<char>| stop_line_status(l),
        ) == Some(Status::Success),
    decreases lines.len(),
{
    if lines.len() > 0 {
        law_stop_scan_tells_success_or_nothing(lines.drop_first());
    }
}

/// A stop's watch runs no hook and its reads tell success or nothing, so it ends in success
/// or in a time-out: the statuses that [`stop_report`] takes.
pub proof fn law_stop_watch_ends_in_success_or_time_out(
    attempts: u8,
    events: spec_fn(u8) -> WatchEvent,
)
    requires
        forall|k: u8|
            #[trigger] events(k) == WatchEvent::Read(None) || events(k) == WatchEvent::Read(
                Some(Status::Success),
            ),
    ensures
        watch_outcome(attempts, events) == Status::Success || watch_outcome(attempts, events)
            == Status::TimeOut,
    decreases attempts,
{
    if attempts > 0 {
        assert(events(attempts) == WatchEvent::Read(None) || events(attempts) == WatchEvent::Read(
            Some(Status::Success),
        ));
        law_stop_watch_ends_in_success_or_time_out((attempts - 1) as u8, events);
    }
}

/// What is checked before a server is stopped, in order: its directory exists and it is
/// running. A missing directory fails the stop with a message; a server that is not running
/// ends it with a warning; otherwise `stop` is typed into its console (`Ok(None)`).
pub open spec fn stop_precheck_spec(server_dir: bool, running: bool) -> Result<
    Option<(Action, Seq<char>)>,
    Seq<char>,
> {
    if !server_dir {
        Err("server directory not found; try running the `build` command first"@)
    } else if !running {
        Ok(Some((Action::Warning, "Server is not running"@)))
    } else {
        Ok(None)
    }
}

/// Decides, from what was checked before a server is stopped, whether to go on.
pub fn stop_precheck(server_dir: bool, running: bool) -> (res: Result<
    Option<(Action, &'static str)>,
    &'static str,
>)
    ensures
        match (res, stop_precheck_spec(server_dir, running)) {
            (Ok(None), Ok(None)) => true,
            (Ok(Some((a, m))), Ok(Some((b, n)))) => a == b && m@ == n,
            (Err(m), Err(n)) => m@ == n,
            _ => false,
        },
{
    if !server_dir {
        Err("server directory not found; try running the `build` command first")
    } else if !running {
        Ok(Some((Action::Warning, "Server is not running")))
    } else {
        Ok(None)
    }
}

} // verus!
