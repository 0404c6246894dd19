//! A tmux window of a session.

use vstd::prelude::*;
use vstd::string::*;

use super::server::Server;
use super::session::Session;
use super::{push_arg, texts, window_target};

verus! {

/// A tmux window, known by its name.
pub struct Window(String);

impl View for Window {
    type V = Seq<char>;

    closed spec fn view(&self) -> Seq<char> {
        self.0@
    }
}

/// `tmux -L SERVER has-session -t =SESSION:WINDOW`.
pub open spec fn window_exists_args(server: Seq<char>, session: Seq<char>, window: Seq<char>) -> Seq<
    Seq<char>,
> {
    seq!["-L"@, server, "has-session"@, "-t"@, window_target(session, window)]
}

/// `tmux -L SERVER send-keys -t =SESSION:WINDOW COMMAND Enter`.
pub open spec fn send_keys_args(
    server: Seq<char>,
    session: Seq<char>,
    window: Seq<char>,
    command: Seq<char>,
) -> Seq<Seq<char>> {
    seq!["-L"@, server, "send-keys"@, "-t"@, window_target(session, window), command, "Enter"@]
}

impl Window {
    /// A window with the given name.
    pub fn new(id: String) -> (window: Self)
        ensures
            window@ == id@,
    {
        Window(id)
    }

    /// The name, given back.
    pub fn into_inner(self) -> (id: String)
        ensures
            id@ == self@,
    {
        self.0
    }

    /// The name.
    pub fn id(&self) -> (id: &str)
        ensures
            id@ == self@,
    {
        self.0.as_str()
    }

    /// `=SESSION:WINDOW`, the target of this window.
    fn target(&self, session: &Session) -> (target: String)
        ensures
            target@ == window_target(session@, self@),
    {
        let mut target = String::from_str("=");
        target.append(session.id());
        target.append(":");
        target.append(self.0.as_str());
        proof {
            reveal_strlit("=");
            reveal_strlit(":");
            assert(target@ =~= window_target(session@, self@));
        }
        target
    }

    /// The arguments that ask the server whether this window exists in the session.
    pub fn exists_args(&self, server: &Server, session: &Session) -> (args: Vec<String>)
        ensures
            texts(args@) == window_exists_args(server@, session@, self@),
    {
        let target = self.target(session);
        let mut args: Vec<String> = Vec::new();
        push_arg(&mut args, "-L");
        push_arg(&mut args, server.id());
        push_arg(&mut args, "has-session");
        push_arg(&mut args, "-t");
        push_arg(&mut args, target.as_str());
        proof {
            reveal_strlit("-L");
            reveal_strlit("has-session");
            reveal_strlit("-t");
            assert(texts(args@) =~= window_exists_args(server@, session@, self@));
        }
        args
    }

    /// The arguments that type `command` into this window and press Enter.
    pub fn send_keys_args(&self, server: &Server, session: &Session, command: &str) -> (args: Vec<
        String,
    >)
        ensures
            texts(args@) == send_keys_args(server@, session@, self@, command@),
    {
        let target = self.target(session);
        let mut args: Vec<String> = Vec::new();
        push_arg(&mut args, "-L");
        push_arg(&mut args, server.id());
        push_arg(&mut args, "send-keys");
        push_arg(&mut args, "-t");
        push_arg(&mut args, target.as_str());
        push_arg(&mut args, command);
        push_arg(&mut args, "Enter");
        proof {
            reveal_strlit("-L");
            reveal_strlit("send-keys");
            reveal_strlit("-t");
            reveal_strlit("Enter");
            assert(texts(args@) =~= send_keys_args(server@, session@, self@, command@));
        }
        args
    }
}

} // verus!
