//! Watching a log file for the line that tells how a server start or stop went.
//!
//! The application reads the file and sleeps between attempts; the decisions of each
//! attempt are taken here.

use vstd::prelude::*;
use vstd::utf8::*;

use crate::commands::start::{scan_start_log, start_line_status};
use crate::commands::stop::{scan_stop_log, stop_line_status};
use crate::paths::text_of_bytes;
use crate::text::{lines, lines_of};

verus! {

/// How a watch ended.
#[derive(Debug, Clone, Copy, PartialEq, Eq, Structural)]
pub enum Status {
    /// The hook run before each attempt said to stop.
    PreHook,
    /// A line told of success.
    Success,
    /// A line told of failure.
    Failure,
    /// No line told anything within the attempts.
    TimeOut,
}

/// What happened during one attempt.
#[derive(Debug, Clone, Copy, PartialEq, Eq, Structural)]
pub enum WatchEvent {
    /// The hook run before reading said to stop.
    PreHookFired,
    /// The new lines were read; the first status they told, if any.
    Read(Option<Status>),
}

/// What the watch does next.
#[derive(Debug, Clone, Copy, PartialEq, Eq, Structural)]
pub enum WatchAction {
    /// Make an attempt; this many are left, counting it.
    Attempt(u8),
    /// Sleep for the interval, then begin again with this many attempts left.
    Sleep(u8),
    /// The watch is over.
    Finish(Status),
}

/// The number of attempts a watch makes unless told otherwise.
pub const DEFAULT_ATTEMPTS: u8 = 60;

/// The number of seconds between two attempts unless told otherwise.
pub const DEFAULT_INTERVAL_SECS: u64 = 1;

/// How a watch with `remaining` attempts left begins.
pub open spec fn begin_spec(remaining: u8) -> WatchAction {
    if remaining == 0 {
        WatchAction::Finish(Status::TimeOut)
    } else {
        WatchAction::Attempt(remaining)
    }
}

/// What follows an attempt, `remaining` attempts being left counting it.
pub open spec fn step_spec(remaining: u8, event: WatchEvent) -> WatchAction {
    match event {
        WatchEvent::PreHookFired => WatchAction::Finish(Status::PreHook),
        WatchEvent::Read(Some(status)) => WatchAction::Finish(status),
        WatchEvent::Read(None) => WatchAction::Sleep((remaining - 1) as u8),
    }
}

/// Begins a watch (or begins it again after a sleep) with `remaining` attempts left.
pub fn watch_begin(remaining: u8) -> (action: WatchAction)
    ensures
        action == begin_spec(remaining),
{
    if remaining == 0 {
        WatchAction::Finish(Status::TimeOut)
    } else {
        WatchAction::Attempt(remaining)
    }
}

/// Decides what follows an attempt.
pub fn watch_step(remaining: u8, event: WatchEvent) -> (action: WatchAction)
    requires
        remaining > 0,
    ensures
        action == step_spec(remaining, event),
{
    match event {
        WatchEvent::PreHookFired => WatchAction::Finish(Status::PreHook),
        WatchEvent::Read(Some(status)) => WatchAction::Finish(status),
        WatchEvent::Read(None) => WatchAction::Sleep(remaining - 1),
    }
}

/// How a watch of `remaining` attempts ends when every attempt has the outcome given by
/// `events` in turn (the attempt with `k` left taking `events[k - 1]`).
pub open spec fn watch_outcome(remaining: u8, events: spec_fn(u8) -> WatchEvent) -> Status
    decreases remaining,
{
    match begin_spec(remaining) {
        WatchAction::Finish(status) => status,
        _ => match step_spec(remaining, events(remaining)) {
            WatchAction::Finish(status) => status,
            WatchAction::Sleep(next) => if next < remaining {
                watch_outcome(next, events)
            } else {
                Status::TimeOut
            },
            WatchAction::Attempt(_) => Status::TimeOut,
        },
    }
}

/// A watch in which the hook never fires and no line tells anything ends in a time-out,
/// whatever the number of attempts.
pub proof fn law_quiet_watch_times_out(attempts: u8, events: spec_fn(u8) -> WatchEvent)
    requires
        forall|k: u8| #[trigger] events(k) == WatchEvent::Read(None),
    ensures
        watch_outcome(attempts, events) == Status::TimeOut,
    decreases attempts,
{
    if attempts > 0 {
        law_quiet_watch_times_out((attempts - 1) as u8, events);
    }
}

/// A watch ends with the status of the first attempt whose hook fires or whose lines tell
/// something, where that attempt comes within the number of attempts.
pub proof fn law_watch_ends_at_first_news(
    attempts: u8,
    events: spec_fn(u8) -> WatchEvent,
    first: u8,
)
    requires
        0 < first <= attempts,
        events(first) != WatchEvent::Read(None),
        forall|k: u8| first < k <= attempts ==> #[trigger] events(k) == WatchEvent::Read(None),
    ensures
        watch_outcome(attempts, events) == match events(first) {
            WatchEvent::PreHookFired => Status::PreHook,
            WatchEvent::Read(Some(status)) => status,
            WatchEvent::Read(None) => Status::TimeOut,
        },
    decreases attempts,
{
    if attempts > first {
        law_watch_ends_at_first_news((attempts - 1) as u8, events, first);
    }
}

/// The first status that `classify` finds in `lines`, reading them in order.
pub open spec fn first_status(lines: Seq<Seq<char>>, classify: spec_fn(Seq<char>) -> Option<Status>) -> Option<
    Status,
>
    decreases lines.len(),
{
    if lines.len() == 0 {
        None
    } else {
        match classify(lines[0]) {
            Some(status) => Some(status),
            None => first_status(lines.drop_first(), classify),
        }
    }
}

/// `first_status` over the lines from `i` on.
pub proof fn lemma_first_status_skip(lines: Seq<Seq<char>>, classify: spec_fn(Seq<char>) -> Option<Status>, i: int)
    requires
        0 <= i < lines.len(),
    ensures
        first_status(lines.skip(i), classify) == match classify(lines[i]) {
            Some(status) => Some(status),
            None => first_status(lines.skip(i + 1), classify),
        },
{
    assert(lines.skip(i).drop_first() =~= lines.skip(i + 1));
}

/// Which log lines a watch looks for.
#[derive(Debug, Clone, Copy, PartialEq, Eq, Structural)]
pub enum LogScan {
    /// The lines that tell how a start went.
    Start,
    /// The lines that tell of a stop.
    Stop,
}

/// What a line tells a watch of the given kind.
pub open spec fn scan_status(scan: LogScan, line: Seq<char>) -> Option<Status> {
    match scan {
        LogScan::Start => start_line_status(line),
        LogScan::Stop => stop_line_status(line),
    }
}

/// The lines of the bytes appended to a log, where they are valid UTF-8.
pub open spec fn appended_lines(bytes: Seq<u8>) -> Option<Seq<Seq<char>>> {
    if valid_utf8(bytes) {
        Some(lines(decode_utf8(bytes)))
    } else {
        None
    }
}

/// The bytes appended to a log since the last round were not valid UTF-8.
#[derive(Debug, Clone, Copy, PartialEq, Eq, Structural)]
pub struct InvalidLogText;

/// What one round of reading a log gives: the first status its new lines tell, and where the
/// next round reads from. A round that finds nothing moves past everything it read, so each
/// line is read once and what is appended later is read by a later round.
pub open spec fn round_spec(scan: LogScan, position: u64, bytes: Seq<u8>) -> Result<
    (Option<Status>, u64),
    InvalidLogText,
> {
    match appended_lines(bytes) {
        None => Err(InvalidLogText),
        Some(ls) => {
            let found = first_status(ls, |l: Seq<char>| scan_status(scan, l));
            Ok(
                (
                    found,
                    if found is None {
                        (position + bytes.len()) as u64
                    } else {
                        position
                    },
                ),
            )
        },
    }
}

/// Reads one round of a log: `bytes` are those from `position` to the end of the file.
pub fn watch_round(scan: LogScan, position: u64, bytes: &[u8]) -> (res: Result<(Option<Status>, u64), InvalidLogText>)
    requires
        position + bytes@.len() <= u64::MAX,
    ensures
        res == round_spec(scan, position, bytes@),
{
    let text = match text_of_bytes(bytes) {
        None => return Err(InvalidLogText),
        Some(text) => text,
    };
    proof {
        encode_utf8_decode_utf8(text@);
    }
    let new_lines = lines_of(text);
    let found = match scan {
        LogScan::Start => scan_start_log(&new_lines),
        LogScan::Stop => scan_stop_log(&new_lines),
    };
    proof {
        let ls = new_lines@.map_values(|l: String| l@);
        assert(ls =~= crate::text::line_texts(new_lines@));
        match scan {
            LogScan::Start => {
                assert((|l: Seq<char>| scan_status(scan, l)) =~= (|l: Seq<char>| start_line_status(l)));
            },
            LogScan::Stop => {
                assert((|l: Seq<char>| scan_status(scan, l)) =~= (|l: Seq<char>| stop_line_status(l)));
            },
        }
    }
    if found.is_none() {
        Ok((found, position + bytes.len() as u64))
    } else {
        Ok((found, position))
    }
}

} // verus!

verus! {

/// Law: the status found in a run of lines is what the first line that tells anything tells;
/// where no line tells anything, none is found.
pub proof fn law_first_status(lines: Seq<Seq<char>>, classify: spec_fn(Seq<char>) -> Option<Status>)
    ensures
        match first_status(lines, classify) {
            Some(s) => exists|i: int|
                0 <= i < lines.len() && #[trigger] classify(lines[i]) == Some(s) && forall|j: int|
                    0 <= j < i ==> #[trigger] classify(lines[j]) is None,
            None => forall|j: int| 0 <= j < lines.len() ==> #[trigger] classify(lines[j]) is None,
        },
    decreases lines.len(),
{
    if lines.len() > 0 {
        law_first_status(lines.drop_first(), classify);
        match classify(lines[0]) {
            Some(s) => {
                assert(classify(lines[0]) == Some(s));
            },
            None => {
                match first_status(lines.drop_first(), classify) {
                    Some(s) => {
                        let i = choose|i: int|
                            0 <= i < lines.drop_first().len() && #[trigger] classify(lines.drop_first()[i])
                                == Some(s) && forall|j: int|
                                0 <= j < i ==> #[trigger] classify(lines.drop_first()[j]) is None;
                        assert(classify(lines[i + 1]) == Some(s));
                        assert forall|j: int| 0 <= j < i + 1 implies #[trigger] classify(lines[j]) is None by {
                            if j > 0 {
                                assert(lines[j] == lines.drop_first()[j - 1]);
                            }
                        }
                    },
                    None => {
                        assert forall|j: int| 0 <= j < lines.len() implies #[trigger] classify(lines[j]) is None by {
                            if j > 0 {
                                assert(lines[j] == lines.drop_first()[j - 1]);
                            }
                        }
                    },
                }
            },
        }
    }
}

} // verus!
