//! The settings that `antibot.toml` holds: the database, the detector's
//! thresholds and the monitored servers.
use vstd::prelude::*;

use crate::text::same_text;

verus! {

/// Where the shared database is.
#[derive(Debug, Clone)]
pub struct DatabaseConfig {
    pub url: String,
}

/// The thresholds of the volume detector.
#[derive(Debug, Clone, Copy, PartialEq, Eq, Structural)]
pub struct DetectorConfig {
    /// The window, in seconds, over which requests of one IP are counted.
    pub window_seconds: i64,
    /// From this many requests in the window an IP is suspicious.
    pub warn_threshold: i64,
    /// From this many requests in the window an IP is banned.
    pub ban_threshold: i64,
    /// How long a ban lasts, in hours; zero or less bans for good.
    pub ban_ttl_hours: i64,
}

/// One monitored server.
#[derive(Debug, Clone)]
pub struct ServerConfig {
    pub name: String,
    /// The SSH host of a remote server.
    pub host: Option<String>,
    pub log_path: String,
    /// `local` or `remote`.
    pub mode: String,
    pub ssh_user: Option<String>,
}

#[derive(Debug, Clone)]
pub struct Config {
    pub database: DatabaseConfig,
    pub detector: DetectorConfig,
    pub servers: Vec<ServerConfig>,
}

impl Config {
    /// The first server of the configuration that bears `name`.
    pub fn find_server(&self, name: &str) -> (r: Option<&ServerConfig>)
        ensures
            r is None <==> forall|i: int|
                0 <= i < self.servers.len() ==> (#[trigger] self.servers[i]).name@ != name@,
            r matches Some(sc) ==> exists|i: int|
                0 <= i < self.servers.len() && *sc == self.servers[i] && sc.name@ == name@
                    && forall|k: int| 0 <= k < i ==> (#[trigger] self.servers[k]).name@ != name@,
    {
        let mut i: usize = 0;
        while i < self.servers.len()
            invariant
                i <= self.servers.len(),
                forall|k: int| 0 <= k < i ==> (#[trigger] self.servers[k]).name@ != name@,
            decreases self.servers.len() - i,
        {
            if same_text(self.servers[i].name.as_str(), name) {
                return Some(&self.servers[i]);
            }
            i = i + 1;
        }
        None
    }
}

} // verus!
