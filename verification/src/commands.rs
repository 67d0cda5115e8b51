//! The `session` command: which of its subcommands runs, and the lines it prints.

use vstd::prelude::*;
use crate::types::{KbError, KbErrorView, opt_view};
use crate::session::Session;
use crate::access_log::AccessLogEntry;
use crate::config::ensure_kb_dir;

verus! {

/// The subcommands of `session`.
pub enum SessionCommands {
    /// List all sessions.
    List,
    /// Show one session and its accesses.
    Show(String),
}

/// What the `session` command goes on to do.
pub enum SessionAction {
    List,
    Show(String),
}

/// Decides what the `session` command does: nothing without a knowledge base, else the
/// subcommand asked for.
pub fn run(kb_dir_is_dir: bool, cmd: &SessionCommands) -> (res: Result<SessionAction, KbError>)
    ensures
        !kb_dir_is_dir ==> (res matches Err(e) && e@ == KbErrorView::NotInitialized),
        kb_dir_is_dir ==> match cmd {
            SessionCommands::List => res matches Ok(SessionAction::List),
            SessionCommands::Show(id) => (res matches Ok(SessionAction::Show(s)) && s@ == id@),
        },
{
    ensure_kb_dir(kb_dir_is_dir)?;
    match cmd {
        SessionCommands::List => Ok(SessionAction::List),
        SessionCommands::Show(id) => Ok(SessionAction::Show(id.clone())),
    }
}

/// `ended` for a session that has ended, else `active`.
pub open spec fn spec_status(s: Session) -> Seq<char> {
    if s.ended_at is Some { "ended"@ } else { "active"@ }
}

/// The status word of a session.
pub fn session_status(s: &Session) -> (res: &'static str)
    ensures
        res@ == spec_status(*s),
{
    if s.ended_at.is_some() { "ended" } else { "active" }
}

/// `value`, or `default` when there is none.
pub open spec fn or_default(value: Option<Seq<char>>, default: Seq<char>) -> Seq<char> {
    match value {
        Some(v) => v,
        None => default,
    }
}

fn opt_or<'a>(value: &'a Option<String>, default: &'a str) -> (res: &'a str)
    ensures
        res@ == or_default(opt_view(*value), default@),
{
    match value {
        Some(v) => v.as_str(),
        None => default,
    }
}

/// The listing line of a session, its start written as `started`:
/// `<id> [<status>] <label or (no label)> started=<started>`.
pub fn session_list_line(s: &Session, started: &str) -> (res: String)
    ensures
        res@ == s.id@ + " ["@ + spec_status(*s) + "] "@ + or_default(opt_view(s.label), "(no label)"@)
            + " started="@ + started@,
{
    s.id.clone().concat(" [").concat(session_status(s)).concat("] ")
        .concat(opt_or(&s.label, "(no label)")).concat(" started=").concat(started)
}

/// The line of an access shown with a session, its moment written as `time`:
/// `  [<time>] tool=<tool> domain=<domain or -> query=<query or ->`.
pub fn access_line(e: &AccessLogEntry, time: &str) -> (res: String)
    ensures
        res@ == "  ["@ + time@ + "] tool="@ + e.tool@ + " domain="@ + or_default(opt_view(e.domain), "-"@)
            + " query="@ + or_default(opt_view(e.query), "-"@),
{
    "  [".to_owned().concat(time).concat("] tool=").concat(e.tool.as_str())
        .concat(" domain=").concat(opt_or(&e.domain, "-"))
        .concat(" query=").concat(opt_or(&e.query, "-"))
}

} // verus!
