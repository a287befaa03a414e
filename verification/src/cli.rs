//! The command line: the configuration file and the subcommand. Without a
//! subcommand the interactive mode runs.
use vstd::prelude::*;

use crate::db::BanRecord;

verus! {

#[derive(Debug, Clone)]
pub struct Cli {
    /// The configuration file (`antibot.toml` unless given).
    pub config: String,
    pub command: Option<Commands>,
}

#[derive(Debug, Clone)]
pub enum Commands {
    /// Create `antibot.toml`, `.gitignore` and the git repository.
    Setup,
    /// Create or update the database schema.
    InitDb,
    /// Watch a server of the configuration.
    Watch { server: String },
    /// Ban an IP by hand (reason `manual` unless given).
    Ban { ip: String, reason: String },
    /// Lift the ban of an IP.
    Unban { ip: String },
    /// Show the blacklist.
    ListBlacklist,
    /// Apply, on a server, the bans of the shared blacklist not yet applied
    /// there.
    Sync { server: String },
}

/// The ban that the `ban` subcommand records: the given reason, the
/// configured duration, source `manual`.
pub fn manual_ban(ip: &str, reason: &str, ttl_hours: i64) -> (b: BanRecord)
    ensures
        b.ip@ == ip@,
        b.reason@ == reason@,
        b.ttl_hours == ttl_hours,
        b.source_host@ == "manual"@,
{
    BanRecord {
        ip: String::from_str(ip),
        reason: String::from_str(reason),
        ttl_hours,
        source_host: String::from_str("manual"),
    }
}

} // verus!
