//! The tool server's session state: which session the tools run in, and how each tool
//! call's outcome moves it.

use vstd::prelude::*;
use crate::types::opt_view;
use crate::tools::str_eq;

verus! {

/// The thirteen tools the server offers.
#[derive(Clone, Copy, Debug, PartialEq, Eq, Structural)]
pub enum ToolKind {
    Prime,
    SessionResume,
    SessionEnd,
    Query,
    QueryAll,
    Search,
    Record,
    Edit,
    Delete,
    Status,
    Oracle,
    Feedback,
    Check,
}

/// The name under which a tool is offered.
pub open spec fn spec_tool_name(t: ToolKind) -> Seq<char> {
    match t {
        ToolKind::Prime => "kb_prime"@,
        ToolKind::SessionResume => "kb_session_resume"@,
        ToolKind::SessionEnd => "kb_session_end"@,
        ToolKind::Query => "kb_query"@,
        ToolKind::QueryAll => "kb_query_all"@,
        ToolKind::Search => "kb_search"@,
        ToolKind::Record => "kb_record"@,
        ToolKind::Edit => "kb_edit"@,
        ToolKind::Delete => "kb_delete"@,
        ToolKind::Status => "kb_status"@,
        ToolKind::Oracle => "kb_oracle"@,
        ToolKind::Feedback => "kb_feedback"@,
        ToolKind::Check => "kb_check"@,
    }
}

impl ToolKind {
    /// The name under which this tool is offered.
    pub fn name(&self) -> (res: &'static str)
        ensures
            res@ == spec_tool_name(*self),
    {
        match self {
            ToolKind::Prime => "kb_prime",
            ToolKind::SessionResume => "kb_session_resume",
            ToolKind::SessionEnd => "kb_session_end",
            ToolKind::Query => "kb_query",
            ToolKind::QueryAll => "kb_query_all",
            ToolKind::Search => "kb_search",
            ToolKind::Record => "kb_record",
            ToolKind::Edit => "kb_edit",
            ToolKind::Delete => "kb_delete",
            ToolKind::Status => "kb_status",
            ToolKind::Oracle => "kb_oracle",
            ToolKind::Feedback => "kb_feedback",
            ToolKind::Check => "kb_check",
        }
    }

    /// Every tool, in the order the server lists them.
    pub fn all() -> (res: Vec<ToolKind>)
        ensures
            res@ == seq![
                ToolKind::Prime, ToolKind::SessionResume, ToolKind::SessionEnd, ToolKind::Query,
                ToolKind::QueryAll, ToolKind::Search, ToolKind::Record, ToolKind::Edit,
                ToolKind::Delete, ToolKind::Status, ToolKind::Oracle, ToolKind::Feedback,
                ToolKind::Check,
            ],
    {
        let v = vec![
            ToolKind::Prime, ToolKind::SessionResume, ToolKind::SessionEnd, ToolKind::Query,
            ToolKind::QueryAll, ToolKind::Search, ToolKind::Record, ToolKind::Edit,
            ToolKind::Delete, ToolKind::Status, ToolKind::Oracle, ToolKind::Feedback,
            ToolKind::Check,
        ];
        v
    }

    /// The tool offered under `name`, if any.
    pub fn from_name(name: &str) -> (res: Option<ToolKind>)
        ensures
            match res {
                Some(t) => spec_tool_name(t) == name@,
                None => forall|t: ToolKind| spec_tool_name(t) != name@,
            },
    {
        let all = ToolKind::all();
        let mut i: usize = 0;
        while i < all.len()
            invariant
                all@ == seq![
                    ToolKind::Prime, ToolKind::SessionResume, ToolKind::SessionEnd, ToolKind::Query,
                    ToolKind::QueryAll, ToolKind::Search, ToolKind::Record, ToolKind::Edit,
                    ToolKind::Delete, ToolKind::Status, ToolKind::Oracle, ToolKind::Feedback,
                    ToolKind::Check,
                ],
                i <= all@.len(),
                forall|j: int| 0 <= j < i ==> spec_tool_name(#[trigger] all@[j]) != name@,
            decreases all@.len() - i,
        {
            if str_eq(all[i].name(), name) {
                return Some(all[i]);
            }
            i = i + 1;
        }
        assert forall|t: ToolKind| spec_tool_name(t) != name@ by {
            match t {
                ToolKind::Prime => assert(all@[0] == t),
                ToolKind::SessionResume => assert(all@[1] == t),
                ToolKind::SessionEnd => assert(all@[2] == t),
                ToolKind::Query => assert(all@[3] == t),
                ToolKind::QueryAll => assert(all@[4] == t),
                ToolKind::Search => assert(all@[5] == t),
                ToolKind::Record => assert(all@[6] == t),
                ToolKind::Edit => assert(all@[7] == t),
                ToolKind::Delete => assert(all@[8] == t),
                ToolKind::Status => assert(all@[9] == t),
                ToolKind::Oracle => assert(all@[10] == t),
                ToolKind::Feedback => assert(all@[11] == t),
                ToolKind::Check => assert(all@[12] == t),
            }
        }
        None
    }
}

/// How a tool call ended, as far as the session state is concerned.
pub enum CallOutcome {
    /// A prime or resume succeeded and the tools now run in this session.
    Entered(String),
    /// A session end succeeded.
    Ended,
    /// Any other tool succeeded.
    Done,
    /// The call failed.
    Failed,
}

/// The session the server's tools currently run in, if any.
pub struct SessionTracker {
    pub current: Option<String>,
}

/// The message of a session end without a session.
pub open spec fn no_session_message() -> Seq<char> {
    "No active session"@
}

/// The session a call of `tool` runs in: the current one, which a session end cannot do
/// without.
pub open spec fn spec_session_for(current: Option<Seq<char>>, tool: ToolKind) -> Result<Option<Seq<char>>, Seq<char>> {
    if tool == ToolKind::SessionEnd && current is None {
        Err(no_session_message())
    } else {
        Ok(current)
    }
}

/// The session after a call: the one entered by a prime or resume, none after a session
/// end, unchanged otherwise (a failed call changes nothing).
pub open spec fn spec_after_call(current: Option<Seq<char>>, outcome: CallOutcome) -> Option<Seq<char>> {
    match outcome {
        CallOutcome::Entered(sid) => Some(sid@),
        CallOutcome::Ended => None,
        CallOutcome::Done => current,
        CallOutcome::Failed => current,
    }
}

impl SessionTracker {
    /// A server that has not started a session yet.
    pub fn new() -> (res: SessionTracker)
        ensures
            res.current is None,
    {
        SessionTracker { current: None }
    }

    /// The session a call of `tool` runs in (see `spec_session_for`).
    pub fn session_for(&self, tool: ToolKind) -> (res: Result<Option<String>, String>)
        ensures
            match res {
                Ok(s) => spec_session_for(opt_view(self.current), tool) == Ok::<Option<Seq<char>>, Seq<char>>(opt_view(s)),
                Err(m) => spec_session_for(opt_view(self.current), tool) == Err::<Option<Seq<char>>, Seq<char>>(m@),
            },
    {
        match &self.current {
            None => {
                if tool == ToolKind::SessionEnd {
                    Err("No active session".to_owned())
                } else {
                    Ok(None)
                }
            },
            Some(s) => Ok(Some(s.clone())),
        }
    }

    /// Moves the session state after a call (see `spec_after_call`).
    pub fn after_call(&mut self, outcome: CallOutcome)
        ensures
            opt_view(final(self).current) == spec_after_call(opt_view(old(self).current), outcome),
    {
        match outcome {
            CallOutcome::Entered(sid) => {
                self.current = Some(sid);
            },
            CallOutcome::Ended => {
                self.current = None;
            },
            CallOutcome::Done => {},
            CallOutcome::Failed => {},
        }
    }
}


/// A session end before any prime or resume is refused with `No active session`, and
/// refusing it leaves the server without a session.
pub proof fn law_end_needs_session()
    ensures
        spec_session_for(None, ToolKind::SessionEnd) == Err::<Option<Seq<char>>, Seq<char>>(no_session_message()),
        spec_after_call(None, CallOutcome::Failed) is None,
{
}

/// After a successful prime or resume every tool, the session end included, runs in
/// the session entered; after a successful session end, a further end is refused; a
/// failed call leaves the session as it was.
pub proof fn law_session_follows_calls(current: Option<Seq<char>>, sid: String, tool: ToolKind)
    ensures
        spec_session_for(spec_after_call(current, CallOutcome::Entered(sid)), tool) == Ok::<Option<Seq<char>>, Seq<char>>(Some(sid@)),
        spec_session_for(spec_after_call(current, CallOutcome::Ended), ToolKind::SessionEnd) is Err,
        spec_after_call(current, CallOutcome::Failed) == current,
{
}

} // verus!
