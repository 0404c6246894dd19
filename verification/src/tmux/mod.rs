//! The arguments of the tmux (v3.5a) commands that run the servers, and how their exit
//! statuses are read. The commands themselves are run by the application.

mod server;
mod session;
mod window;

pub use server::{CreateSessionOptions, Server};
pub use session::{CreateWindowOptions, Session};
pub use window::Window;

use vstd::prelude::*;
use vstd::string::*;
use vstd::utf8::*;

use crate::paths::{path_bytes, to_str};

verus! {

/// The texts of a list of arguments.
pub open spec fn texts(args: Seq<String>) -> Seq<Seq<char>> {
    args.map_values(|a: String| a@)
}

/// The text of an optional owned string.
pub open spec fn text_opt(s: Option<String>) -> Option<Seq<char>> {
    match s {
        Some(t) => Some(t@),
        None => None,
    }
}

/// A directory given to tmux reads as text, where there is one.
pub open spec fn dir_readable(dir: Option<std::path::PathBuf>) -> bool {
    match dir {
        Some(p) => valid_utf8(path_bytes(p)),
        None => true,
    }
}

/// `-c DIR` where a directory is given.
pub open spec fn dir_args(dir: Option<std::path::PathBuf>) -> Seq<Seq<char>> {
    match dir {
        Some(p) => seq!["-c"@, decode_utf8(path_bytes(p))],
        None => seq![],
    }
}

/// `-d` where the new window is not to be entered.
pub open spec fn detached_args(detached: bool) -> Seq<Seq<char>> {
    if detached {
        seq!["-d"@]
    } else {
        seq![]
    }
}

/// The command to run in the new window, where there is one.
pub open spec fn command_args(command: Option<Seq<char>>) -> Seq<Seq<char>> {
    match command {
        Some(c) => seq![c],
        None => seq![],
    }
}

/// The target of a session: its name, matched exactly.
pub open spec fn session_target(session: Seq<char>) -> Seq<char> {
    "="@ + session
}

/// The target of a window of a session.
pub open spec fn window_target(session: Seq<char>, window: Seq<char>) -> Seq<char> {
    "="@ + session + ":"@ + window
}

/// Why a tmux command did not do what was asked.
#[derive(Debug, PartialEq, Eq, Structural)]
pub enum TmuxError {
    /// The directory given to tmux does not read as text.
    InvalidPath,
    /// tmux ended with this exit code, which is not zero.
    NonZeroExit(i32),
    /// tmux was ended by a signal.
    Signal,
}

/// How the exit of a tmux command is read: code zero is success.
pub open spec fn exit_result(code: Option<i32>) -> Result<(), TmuxError> {
    match code {
        Some(0i32) => Ok(()),
        Some(c) => Err(TmuxError::NonZeroExit(c)),
        None => Err(TmuxError::Signal),
    }
}

/// Reads the exit code of a tmux command (`None` where a signal ended it).
pub fn exit_outcome(code: Option<i32>) -> (res: Result<(), TmuxError>)
    ensures
        res == exit_result(code),
{
    match code {
        Some(0i32) => Ok(()),
        Some(c) => Err(TmuxError::NonZeroExit(c)),
        None => Err(TmuxError::Signal),
    }
}

impl TmuxError {
    /// What went wrong, in words.
    pub fn message(&self) -> (text: String)
        ensures
            text@ == match *self {
                TmuxError::InvalidPath => "path contains invalid unicode"@,
                TmuxError::NonZeroExit(c) => "process returned a non-zero exit code: "@
                    + crate::text::signed_decimal(c as int),
                TmuxError::Signal => "process terminated via signal"@,
            },
    {
        match *self {
            TmuxError::InvalidPath => String::from_str("path contains invalid unicode"),
            TmuxError::NonZeroExit(c) => {
                let mut text = String::from_str("process returned a non-zero exit code: ");
                crate::text::push_signed(&mut text, c);
                text
            },
            TmuxError::Signal => String::from_str("process terminated via signal"),
        }
    }
}

/// Appends a text to a list of arguments.
pub(crate) fn push_arg(args: &mut Vec<String>, arg: &str)
    ensures
        texts(final(args)@) == texts(old(args)@).push(arg@),
{
    args.push(arg.to_owned());
    proof {
        assert(texts(args@) =~= texts(old(args)@).push(arg@));
    }
}

/// Appends `-c DIR` where a directory is given; fails where it does not read as text.
pub(crate) fn push_dir(args: &mut Vec<String>, dir: &Option<std::path::PathBuf>) -> (ok: bool)
    ensures
        ok == dir_readable(*dir),
        ok ==> texts(final(args)@) == texts(old(args)@) + dir_args(*dir),
{
    match dir {
        Some(path) => match to_str(path) {
            Some(text) => {
                push_arg(args, "-c");
                push_arg(args, text);
                proof {
                    vstd::utf8::encode_utf8_decode_utf8(text@);
                    assert(texts(args@) =~= texts(old(args)@) + dir_args(*dir));
                }
                true
            },
            None => false,
        },
        None => {
            proof {
                assert(texts(args@) =~= texts(old(args)@) + dir_args(*dir));
            }
            true
        },
    }
}

/// Appends `-d` where the new window is not to be entered.
pub(crate) fn push_detached(args: &mut Vec<String>, detached: bool)
    ensures
        texts(final(args)@) == texts(old(args)@) + detached_args(detached),
{
    if detached {
        push_arg(args, "-d");
    }
    proof {
        assert(texts(args@) =~= texts(old(args)@) + detached_args(detached));
    }
}

/// Appends the command to run, where there is one.
pub(crate) fn push_command(args: &mut Vec<String>, command: &Option<String>)
    ensures
        texts(final(args)@) == texts(old(args)@) + command_args(text_opt(*command)),
{
    match command {
        Some(c) => push_arg(args, c.as_str()),
        None => {},
    }
    proof {
        assert(texts(args@) =~= texts(old(args)@) + command_args(text_opt(*command)));
    }
}

} // verus!
