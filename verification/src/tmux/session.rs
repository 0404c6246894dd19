//! A tmux session, named by the user.

use vstd::prelude::*;
use vstd::string::*;

use super::server::Server;
use super::{
    command_args, detached_args, dir_args, dir_readable, push_arg, push_command, push_detached,
    push_dir, session_target, text_opt, texts,
};

verus! {

/// A tmux session, known by its name.
pub struct Session(String);

/// How a new window is made.
pub struct CreateWindowOptions {
    /// Make the window without switching to it.
    pub detached: bool,
    /// Directory the window starts in.
    pub current_dir: Option<std::path::PathBuf>,
    /// Command run in the window.
    pub command: Option<String>,
}

impl Default for CreateWindowOptions {
    fn default() -> (opts: Self)
        ensures
            !opts.detached,
            opts.current_dir is None,
            opts.command is None,
    {
        CreateWindowOptions { detached: false, current_dir: None, command: None }
    }
}

impl View for Session {
    type V = Seq<char>;

    closed spec fn view(&self) -> Seq<char> {
        self.0@
    }
}

/// `tmux -L SERVER has-session -t =SESSION`.
pub open spec fn has_session_args(server: Seq<char>, session: Seq<char>) -> Seq<Seq<char>> {
    seq!["-L"@, server, "has-session"@, "-t"@, session_target(session)]
}

/// `tmux -L SERVER new-window [-c DIR] [-d] -t =SESSION -n WINDOW [COMMAND]`.
pub open spec fn new_window_args(
    server: Seq<char>,
    session: Seq<char>,
    window: Seq<char>,
    opts: CreateWindowOptions,
) -> Seq<Seq<char>> {
    seq!["-L"@, server, "new-window"@] + dir_args(opts.current_dir) + detached_args(opts.detached)
        + seq!["-t"@, session_target(session), "-n"@, window] + command_args(
        text_opt(opts.command),
    )
}

impl Session {
    /// A session with the given name.
    pub fn new(id: String) -> (session: Self)
        ensures
            session@ == id@,
    {
        Session(id)
    }

    /// The name, given back.
    pub fn into_inner(self) -> (id: String)
        ensures
            id@ == self@,
    {
        self.0
    }

    /// The name.
    pub fn id(&self) -> (id: &str)
        ensures
            id@ == self@,
    {
        self.0.as_str()
    }

    /// The arguments that ask the server whether this session exists.
    pub fn has_session_args(&self, server: &Server) -> (args: Vec<String>)
        ensures
            texts(args@) == has_session_args(server@, self@),
    {
        let mut target = String::from_str("=");
        target.append(self.0.as_str());
        let mut args: Vec<String> = Vec::new();
        push_arg(&mut args, "-L");
        push_arg(&mut args, server.id());
        push_arg(&mut args, "has-session");
        push_arg(&mut args, "-t");
        push_arg(&mut args, target.as_str());
        proof {
            reveal_strlit("-L");
            reveal_strlit("has-session");
            reveal_strlit("-t");
            reveal_strlit("=");
            assert(texts(args@) =~= has_session_args(server@, self@));
        }
        args
    }

    /// The arguments that make a window named `id` in this session. `None` where the
    /// directory does not read as text.
    pub fn new_window_args(&self, server: &Server, id: &str, opts: &CreateWindowOptions) -> (args: Option<Vec<String>>)
        ensures
            args is Some <==> dir_readable(opts.current_dir),
            args matches Some(a) ==> texts(a@) == new_window_args(server@, self@, id@, *opts),
    {
        let mut args: Vec<String> = Vec::new();
        push_arg(&mut args, "-L");
        push_arg(&mut args, server.id());
        push_arg(&mut args, "new-window");
        if !push_dir(&mut args, &opts.current_dir) {
            return None;
        }
        push_detached(&mut args, opts.detached);
        let mut target = String::from_str("=");
        target.append(self.0.as_str());
        push_arg(&mut args, "-t");
        push_arg(&mut args, target.as_str());
        push_arg(&mut args, "-n");
        push_arg(&mut args, id);
        push_command(&mut args, &opts.command);
        proof {
            reveal_strlit("-L");
            reveal_strlit("new-window");
            reveal_strlit("-t");
            reveal_strlit("-n");
            reveal_strlit("=");
            assert(texts(args@) =~= new_window_args(server@, self@, id@, *opts));
        }
        Some(args)
    }
}

} // verus!
