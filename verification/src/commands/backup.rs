//! The `backup` subcommand: compresses the server directory into `backups/`, with auto-save
//! turned off while it runs.

use vstd::prelude::*;

verus! {

/// Arguments for the `backup` subcommand.
pub struct Backup {
    /// Block the current process until the backup is complete.
    pub wait: bool,
}

/// The console commands typed into a running server before its directory is compressed.
pub open spec fn before_backup() -> Seq<Seq<char>> {
    seq!["save-off"@, "say Server backup in progess. Auto-save has been disabled"@]
}

/// The console commands typed into a running server once the backup is written.
pub open spec fn after_backup() -> Seq<Seq<char>> {
    seq!["save-on"@, "say Server backup complete! Auto-save has been re-enabled"@]
}

/// The texts of a list of static strings.
pub open spec fn static_texts(keys: Seq<&'static str>) -> Seq<Seq<char>> {
    keys.map_values(|k: &'static str| k@)
}

/// The console commands typed into a running server before its directory is compressed.
pub fn before_backup_keys() -> (keys: Vec<&'static str>)
    ensures
        static_texts(keys@) == before_backup(),
{
    let keys = vec!["save-off", "say Server backup in progess. Auto-save has been disabled"];
    proof {
        assert(static_texts(keys@) =~= before_backup());
    }
    keys
}

/// The console commands typed into a running server once the backup is written.
pub fn after_backup_keys() -> (keys: Vec<&'static str>)
    ensures
        static_texts(keys@) == after_backup(),
{
    let keys = vec!["save-on", "say Server backup complete! Auto-save has been re-enabled"];
    proof {
        assert(static_texts(keys@) =~= after_backup());
    }
    keys
}

} // verus!
