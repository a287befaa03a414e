//! The interactive mode: three commands at the top (`/start`, `/manutein`,
//! `/logout`) and a maintenance menu to list, ban and unban by hand.
use vstd::prelude::*;

use crate::config::Config;
use crate::db::BanRecord;
use crate::text::{same_text, trim, trim_str, views, words, words_of};

verus! {

/// A command typed at the top prompt.
#[derive(Debug, Clone)]
pub enum ReplCommand {
    /// `/start`: start watching every server.
    Start,
    /// `/manutein`, `/manutencao` or `/maintenance`: the maintenance menu.
    Maintenance,
    /// `/logout`: stop everything and leave.
    Logout,
    /// A blank line.
    Empty,
    /// Anything else, trimmed.
    Unknown(String),
}

/// The top-level commands are five different words.
proof fn lemma_commands_distinct()
    ensures
        "/start"@.len() == 6,
        "/manutein"@.len() == 9,
        "/manutencao"@.len() == 11,
        "/maintenance"@.len() == 12,
        "/logout"@.len() == 7,
{
    reveal_strlit("/start");
    reveal_strlit("/manutein");
    reveal_strlit("/manutencao");
    reveal_strlit("/maintenance");
    reveal_strlit("/logout");
}

/// The top-level command that the typed `line` is.
pub fn repl_command(line: &str) -> (r: ReplCommand)
    ensures
        trim(line@) == "/start"@ ==> r is Start,
        trim(line@) == "/manutein"@ || trim(line@) == "/manutencao"@ || trim(line@)
            == "/maintenance"@ ==> r is Maintenance,
        trim(line@) == "/logout"@ ==> r is Logout,
        trim(line@).len() == 0 ==> r is Empty,
        trim(line@) != "/start"@ && trim(line@) != "/manutein"@ && trim(line@) != "/manutencao"@
            && trim(line@) != "/maintenance"@ && trim(line@) != "/logout"@ && trim(line@).len() > 0
            ==> (r matches ReplCommand::Unknown(x) && x@ == trim(line@)),
{
    proof {
        lemma_commands_distinct();
    }
    let t = trim_str(line);
    let ts = t.as_str();
    if same_text(ts, "/start") {
        ReplCommand::Start
    } else if same_text(ts, "/manutein") || same_text(ts, "/manutencao") || same_text(
        ts,
        "/maintenance",
    ) {
        ReplCommand::Maintenance
    } else if same_text(ts, "/logout") {
        ReplCommand::Logout
    } else if t.unicode_len() == 0 {
        ReplCommand::Empty
    } else {
        ReplCommand::Unknown(t)
    }
}

/// Whether the watches are running.
#[derive(Debug, Clone, Copy, PartialEq, Eq, Structural)]
pub struct ReplState {
    pub started: bool,
}

/// What happened.
#[derive(Debug, Clone)]
pub enum ReplEvent {
    /// A line typed at the prompt; `None` when the input has closed.
    Input(Option<String>),
    /// Whether starting the watches succeeded.
    Started(bool),
    /// The maintenance menu was left.
    MaintenanceDone,
}

/// What to do next.
#[derive(Debug, Clone)]
pub enum ReplAction {
    /// Prompt for the next line.
    Prompt,
    /// Tell that the watches already run, then prompt.
    AlreadyRunning,
    /// Start watching every server and syncing the blacklist.
    StartAll,
    /// Run the maintenance menu.
    EnterMaintenance,
    /// Stop the watches and the sync, then leave.
    Logout,
    /// Leave: the input has closed.
    Exit,
    /// Tell that this command does not exist, then prompt.
    Unknown(String),
}

/// The state in which the interactive mode starts: nothing runs.
pub fn repl_start() -> (st: ReplState)
    ensures
        !st.started,
{
    ReplState { started: false }
}

/// One step of the interactive mode. `/start` starts the watches only once;
/// they count as started only when starting succeeded.
pub fn run(st: ReplState, ev: ReplEvent) -> (r: (ReplState, ReplAction))
    ensures
        match ev {
            ReplEvent::Input(None) => r.0 == st && r.1 is Exit,
            ReplEvent::Input(Some(line)) => {
                let t = trim(line@);
                if t == "/start"@ {
                    r.0 == st && (if st.started {
                        r.1 is AlreadyRunning
                    } else {
                        r.1 is StartAll
                    })
                } else if t == "/manutein"@ || t == "/manutencao"@ || t == "/maintenance"@ {
                    r.0 == st && r.1 is EnterMaintenance
                } else if t == "/logout"@ {
                    r.0 == st && r.1 is Logout
                } else if t.len() == 0 {
                    r.0 == st && r.1 is Prompt
                } else {
                    r.0 == st && (r.1 matches ReplAction::Unknown(x) && x@ == t)
                }
            },
            ReplEvent::Started(ok) => r.0 == (ReplState { started: st.started || ok }) && r.1 is Prompt,
            ReplEvent::MaintenanceDone => r.0 == st && r.1 is Prompt,
        },
{
    match ev {
        ReplEvent::Input(None) => (st, ReplAction::Exit),
        ReplEvent::Input(Some(line)) => {
            let c = repl_command(line.as_str());
            proof {
                lemma_commands_distinct();
            }
            match c {
                ReplCommand::Start => if st.started {
                    (st, ReplAction::AlreadyRunning)
                } else {
                    (st, ReplAction::StartAll)
                },
                ReplCommand::Maintenance => (st, ReplAction::EnterMaintenance),
                ReplCommand::Logout => (st, ReplAction::Logout),
                ReplCommand::Empty => (st, ReplAction::Prompt),
                ReplCommand::Unknown(x) => (st, ReplAction::Unknown(x)),
            }
        },
        ReplEvent::Started(ok) => (ReplState { started: st.started || ok }, ReplAction::Prompt),
        ReplEvent::MaintenanceDone => (st, ReplAction::Prompt),
    }
}

/// A command of the maintenance menu.
#[derive(Debug, Clone)]
pub enum MaintenanceCommand {
    /// `listar`: show the blacklist.
    List,
    /// `banir <ip>`.
    Ban(String),
    /// `banir` without an IP.
    BanUsage,
    /// `desbanir <ip>`.
    Unban(String),
    /// `desbanir` without an IP.
    UnbanUsage,
    /// `voltar`: back to the top prompt.
    Back,
    /// A blank line.
    Empty,
    /// Anything else.
    Unknown,
}

/// The maintenance command that the typed `line` is, by its first word and,
/// for `banir` and `desbanir`, its second; further words are ignored.
pub open spec fn maintenance_spec(line: Seq<char>, r: MaintenanceCommand) -> bool {
    let w = words(line);
    if w.len() == 0 {
        r is Empty
    } else if w[0] == "listar"@ {
        r is List
    } else if w[0] == "banir"@ {
        if w.len() >= 2 {
            r matches MaintenanceCommand::Ban(ip) && ip@ == w[1]
        } else {
            r is BanUsage
        }
    } else if w[0] == "desbanir"@ {
        if w.len() >= 2 {
            r matches MaintenanceCommand::Unban(ip) && ip@ == w[1]
        } else {
            r is UnbanUsage
        }
    } else if w[0] == "voltar"@ {
        r is Back
    } else {
        r is Unknown
    }
}

pub fn maintenance_command(line: &str) -> (r: MaintenanceCommand)
    ensures
        maintenance_spec(line@, r),
{
    let w = words_of(line);
    if w.len() == 0 {
        return MaintenanceCommand::Empty;
    }
    assert(views(w@)[0] == w@[0]@);
    let first = w[0].as_str();
    if same_text(first, "listar") {
        MaintenanceCommand::List
    } else if same_text(first, "banir") {
        if w.len() >= 2 {
            assert(views(w@)[1] == w@[1]@);
            MaintenanceCommand::Ban(w[1].clone())
        } else {
            MaintenanceCommand::BanUsage
        }
    } else if same_text(first, "desbanir") {
        if w.len() >= 2 {
            assert(views(w@)[1] == w@[1]@);
            MaintenanceCommand::Unban(w[1].clone())
        } else {
            MaintenanceCommand::UnbanUsage
        }
    } else if same_text(first, "voltar") {
        MaintenanceCommand::Back
    } else {
        MaintenanceCommand::Unknown
    }
}

/// The ban that `banir <ip>` records: reason `manual (manutein)`, source
/// `manutein`, the configured duration.
pub fn maintenance_ban(ip: &str, ttl_hours: i64) -> (b: BanRecord)
    ensures
        b.ip@ == ip@,
        b.reason@ == "manual (manutein)"@,
        b.ttl_hours == ttl_hours,
        b.source_host@ == "manutein"@,
{
    BanRecord {
        ip: String::from_str(ip),
        reason: String::from_str("manual (manutein)"),
        ttl_hours,
        source_host: String::from_str("manutein"),
    }
}

/// `/start` with no server in the configuration.
#[derive(Debug, Clone, Copy, PartialEq, Eq, Structural)]
pub struct NoServers;

/// The servers that `/start` watches: every server of the configuration,
/// in order, by name; an error when there is none.
pub fn servers_to_start(cfg: &Config) -> (r: Result<Vec<String>, NoServers>)
    ensures
        cfg.servers.len() == 0 <==> r is Err,
        r matches Ok(names) ==> names.len() == cfg.servers.len() && forall|i: int|
            0 <= i < names.len() ==> #[trigger] names@[i]@ == cfg.servers@[i].name@,
{
    if cfg.servers.len() == 0 {
        return Err(NoServers);
    }
    let mut names: Vec<String> = Vec::new();
    let mut i: usize = 0;
    while i < cfg.servers.len()
        invariant
            i <= cfg.servers.len(),
            names.len() == i,
            forall|k: int| 0 <= k < i ==> #[trigger] names@[k]@ == cfg.servers@[k].name@,
        decreases cfg.servers.len() - i,
    {
        names.push(cfg.servers[i].name.clone());
        i = i + 1;
    }
    Ok(names)
}

} // verus!
