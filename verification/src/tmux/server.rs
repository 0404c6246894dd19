//! A tmux server, named by the socket it listens on.

use vstd::prelude::*;
use vstd::string::*;

use super::{
    command_args, detached_args, dir_args, dir_readable, push_arg, push_command, push_detached,
    push_dir, text_opt, texts,
};

verus! {

/// A tmux server, known by its socket name (`tmux -L NAME`).
pub struct Server(String);

/// How a new session is made.
pub struct CreateSessionOptions {
    /// Make the session without attaching to it.
    pub detached: bool,
    /// Directory the session starts in.
    pub current_dir: Option<std::path::PathBuf>,
    /// Command run in the first window.
    pub command: Option<String>,
}

impl Default for CreateSessionOptions {
    fn default() -> (opts: Self)
        ensures
            !opts.detached,
            opts.current_dir is None,
            opts.command is None,
    {
        CreateSessionOptions { detached: false, current_dir: None, command: None }
    }
}

impl View for Server {
    type V = Seq<char>;

    closed spec fn view(&self) -> Seq<char> {
        self.0@
    }
}

/// `tmux -L SERVER new-session [-c DIR] [-d] -s SESSION [-n WINDOW] [COMMAND]`.
pub open spec fn new_session_args(
    server: Seq<char>,
    session: Seq<char>,
    window: Option<Seq<char>>,
    opts: CreateSessionOptions,
) -> Seq<Seq<char>> {
    seq!["-L"@, server, "new-session"@] + dir_args(opts.current_dir) + detached_args(opts.detached)
        + seq!["-s"@, session] + match window {
        Some(w) => seq!["-n"@, w],
        None => seq![],
    } + command_args(text_opt(opts.command))
}

impl Server {
    /// A server with the given socket name.
    pub fn new(id: String) -> (server: Self)
        ensures
            server@ == id@,
    {
        Server(id)
    }

    /// The socket name.
    pub fn id(&self) -> (id: &str)
        ensures
            id@ == self@,
    {
        self.0.as_str()
    }

    /// The arguments that make a session on this server, with a first window named
    /// `window` where one is given. `None` where the directory does not read as text.
    pub fn new_session_args(&self, session: &str, window: Option<&str>, opts: &CreateSessionOptions) -> (args: Option<Vec<String>>)
        ensures
            args is Some <==> dir_readable(opts.current_dir),
            args matches Some(a) ==> texts(a@) == new_session_args(
                self@,
                session@,
                match window {
                    Some(w) => Some(w@),
                    None => None,
                },
                *opts,
            ),
    {
        let mut args: Vec<String> = Vec::new();
        push_arg(&mut args, "-L");
        push_arg(&mut args, self.0.as_str());
        push_arg(&mut args, "new-session");
        if !push_dir(&mut args, &opts.current_dir) {
            return None;
        }
        push_detached(&mut args, opts.detached);
        push_arg(&mut args, "-s");
        push_arg(&mut args, session);
        let ghost before = texts(args@);
        match window {
            Some(w) => {
                push_arg(&mut args, "-n");
                push_arg(&mut args, w);
            },
            None => {},
        }
        push_command(&mut args, &opts.command);
        proof {
            reveal_strlit("-L");
            reveal_strlit("new-session");
            reveal_strlit("-s");
            reveal_strlit("-n");
            assert(texts(args@) =~= new_session_args(
                self@,
                session@,
                match window {
                    Some(w) => Some(w@),
                    None => None,
                },
                *opts,
            ));
        }
        Some(args)
    }
}

} // verus!
