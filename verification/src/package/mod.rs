//! A package: a directory that holds a manifest, a server and its backups.

pub mod server;

use std::path::PathBuf;

use vstd::prelude::*;
use vstd::string::*;

use crate::paths::{file_name, final_component, join, joined_as, path_bytes, to_str};
use vstd::utf8::*;
use server::Server;

verus! {

/// A package directory.
#[derive(Debug)]
pub struct Package {
    path: PathBuf,
}

impl View for Package {
    type V = PathBuf;

    /// Where the package lies.
    closed spec fn view(&self) -> PathBuf {
        self.path
    }
}

impl Package {
    pub fn new(path: PathBuf) -> (package: Self)
        ensures
            package@ == path,
    {
        Package { path }
    }

    pub fn path(&self) -> (path: &PathBuf)
        ensures
            *path == self@,
    {
        &self.path
    }

    /// The `backups` directory of the package.
    pub fn backups(&self) -> (backups: PathBuf)
        ensures
            joined_as(self@, "backups"@, backups),
    {
        proof {
            reveal_strlit("backups");
        }
        join(&self.path, "backups")
    }

    /// The `server` directory of the package.
    pub fn server(&self) -> (server: Server)
        ensures
            joined_as(self@, "server"@, server@),
    {
        proof {
            reveal_strlit("server");
        }
        Server::new(join(&self.path, "server"))
    }

    /// The manifest of the package, `Celestia.toml`.
    pub fn manifest(&self) -> (manifest: PathBuf)
        ensures
            joined_as(self@, "Celestia.toml"@, manifest),
    {
        proof {
            reveal_strlit("Celestia.toml");
        }
        join(&self.path, "Celestia.toml")
    }
}

/// The name of the tmux window a package's server runs in: the final component of its path,
/// where it has one and it reads as text.
pub open spec fn window_name(path: PathBuf) -> Option<Seq<char>> {
    match final_component(path_bytes(path)) {
        Some(b) => if valid_utf8(b) {
            Some(decode_utf8(b))
        } else {
            None
        },
        None => None,
    }
}

impl Package {
    /// The name of the tmux window the package's server runs in.
    pub fn window_id(&self) -> (id: Option<String>)
        ensures
            match (id, window_name(self@)) {
                (Some(i), Some(n)) => i@ == n,
                (None, None) => true,
                _ => false,
            },
    {
        match file_name(&self.path) {
            None => None,
            Some(name) => match to_str(&name) {
                None => None,
                Some(text) => {
                    proof {
                        encode_utf8_decode_utf8(text@);
                    }
                    Some(String::from_str(text))
                },
            },
        }
    }
}

} // verus!
