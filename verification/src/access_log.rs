//! The access log: which tool each session used, on what, with what result.

use vstd::prelude::*;
use crate::types::{opt_view};
use crate::session::Timestamp;
use crate::config::{spec_join, spec_kb_dir, get_kb_dir, join_path};

verus! {

/// One use of a tool within a session.
pub struct AccessLogEntry {
    pub session_id: String,
    pub timestamp: Timestamp,
    pub tool: String,
    pub domain: Option<String>,
    pub query: Option<String>,
    pub entry_id: Option<String>,
    pub result_count: Option<usize>,
    pub signal: Option<String>,
}

pub struct AccessLogEntryView {
    pub session_id: Seq<char>,
    pub timestamp: Timestamp,
    pub tool: Seq<char>,
    pub domain: Option<Seq<char>>,
    pub query: Option<Seq<char>>,
    pub entry_id: Option<Seq<char>>,
    pub result_count: Option<usize>,
    pub signal: Option<Seq<char>>,
}

impl View for AccessLogEntry {
    type V = AccessLogEntryView;

    open spec fn view(&self) -> AccessLogEntryView {
        AccessLogEntryView {
            session_id: self.session_id@,
            timestamp: self.timestamp,
            tool: self.tool@,
            domain: opt_view(self.domain),
            query: opt_view(self.query),
            entry_id: opt_view(self.entry_id),
            result_count: self.result_count,
            signal: opt_view(self.signal),
        }
    }
}

/// Which entries to keep: each filter that is set must agree with the entry.
pub struct AccessLogFilter {
    pub session_id: Option<String>,
    pub domain: Option<String>,
    pub tool: Option<String>,
}

impl Default for AccessLogFilter {
    /// The filter that keeps every entry.
    fn default() -> (res: Self)
        ensures
            res.session_id is None,
            res.domain is None,
            res.tool is None,
    {
        AccessLogFilter { session_id: None, domain: None, tool: None }
    }
}

/// Whether `e` passes `f`: same session if one is asked for, same domain if one is
/// asked for (an entry without domain never passes then), same tool if one is asked for.
pub open spec fn access_matches(f: AccessLogFilter, e: AccessLogEntryView) -> bool {
    &&& (f.session_id matches Some(sid) ==> e.session_id == sid@)
    &&& (f.domain matches Some(d) ==> e.domain == Some(d@))
    &&& (f.tool matches Some(t) ==> e.tool == t@)
}

/// The entries of `entries` that pass `f`, in order.
pub open spec fn access_filtered(f: AccessLogFilter, entries: Seq<AccessLogEntryView>) -> Seq<AccessLogEntryView>
    decreases entries.len(),
{
    if entries.len() == 0 {
        seq![]
    } else {
        let rest = access_filtered(f, entries.drop_last());
        if access_matches(f, entries.last()) { rest.push(entries.last()) } else { rest }
    }
}

pub open spec fn access_entries_view(v: Vec<AccessLogEntry>) -> Seq<AccessLogEntryView> {
    v@.map_values(|e: AccessLogEntry| e@)
}

/// `<cwd>/.kb/access.jsonl`
pub open spec fn spec_log_path(cwd: Seq<char>) -> Seq<char> {
    spec_join(spec_kb_dir(cwd), "access.jsonl"@)
}

/// The file the access log is kept in.
pub fn log_path(cwd: &str) -> (res: String)
    ensures
        res@ == spec_log_path(cwd@),
{
    let kb = get_kb_dir(cwd);
    join_path(kb.as_str(), "access.jsonl")
}

fn opt_string_eq(a: &Option<String>, b: &String) -> (res: bool)
    ensures
        res == (opt_view(*a) == Some(b@)),
{
    match a {
        Some(s) => *s == *b,
        None => false,
    }
}

impl AccessLogFilter {
    /// Whether `entry` passes this filter.
    pub fn matches(&self, entry: &AccessLogEntry) -> (res: bool)
        ensures
            res == access_matches(*self, entry@),
    {
        if let Some(sid) = &self.session_id {
            if entry.session_id != *sid {
                return false;
            }
        }
        if let Some(d) = &self.domain {
            if !opt_string_eq(&entry.domain, d) {
                return false;
            }
        }
        if let Some(t) = &self.tool {
            if entry.tool != *t {
                return false;
            }
        }
        true
    }
}

/// The logged entries that pass `filters`, in the order they were logged.
pub fn query_log(entries: Vec<AccessLogEntry>, filters: &AccessLogFilter) -> (res: Vec<AccessLogEntry>)
    ensures
        access_entries_view(res) == access_filtered(*filters, access_entries_view(entries)),
{
    let ghost input = access_entries_view(entries);
    let mut rest = entries;
    let mut res: Vec<AccessLogEntry> = Vec::new();
    let n = rest.len();
    let mut i: usize = 0;
    while i < n
        invariant
            n == input.len(),
            i <= n,
            access_entries_view(rest) == input.skip(i as int),
            access_entries_view(res) == access_filtered(*filters, input.take(i as int)),
        decreases n - i,
    {
        let ghost old_rest = rest@;
        let ghost old_view = access_entries_view(rest);
        assert(old_view.len() == old_rest.len());
        let e = rest.remove(0);
        assert(e@ == old_view[0]);
        assert forall|k: int| 0 <= k < access_entries_view(rest).len() implies access_entries_view(rest)[k] == input.skip(i + 1)[k] by {
            assert(rest@[k] == old_rest[k + 1]);
            assert(old_view[k + 1] == input.skip(i as int)[k + 1]);
        }
        assert(access_entries_view(rest) =~= input.skip(i + 1));
        assert(input.take(i + 1).drop_last() =~= input.take(i as int));
        assert(input.take(i + 1).last() == e@);
        if filters.matches(&e) {
            let ghost before = res@;
            let ghost ev = e@;
            res.push(e);
            assert(access_entries_view(res) =~= before.map_values(|x: AccessLogEntry| x@).push(ev));
        }
        i = i + 1;
    }
    assert(input.take(n as int) =~= input);
    res
}


/// The filter with nothing set keeps every entry, in order.
pub proof fn law_access_no_filter_keeps_all(f: AccessLogFilter, entries: Seq<AccessLogEntryView>)
    requires
        f.session_id is None,
        f.domain is None,
        f.tool is None,
    ensures
        access_filtered(f, entries) == entries,
    decreases entries.len(),
{
    if entries.len() > 0 {
        law_access_no_filter_keeps_all(f, entries.drop_last());
        assert(entries.drop_last().push(entries.last()) =~= entries);
    }
}

/// A query gives back exactly the entries that pass the filter: each one it gives passes
/// and was logged, and each logged entry that passes is given.
pub proof fn law_access_query_exact(f: AccessLogFilter, entries: Seq<AccessLogEntryView>, x: AccessLogEntryView)
    ensures
        access_filtered(f, entries).contains(x) <==> (entries.contains(x) && access_matches(f, x)),
    decreases entries.len(),
{
    if entries.len() > 0 {
        law_access_query_exact(f, entries.drop_last(), x);
        let rest = access_filtered(f, entries.drop_last());
        if entries.drop_last().contains(x) {
            let j = choose|j: int| 0 <= j < entries.drop_last().len() && entries.drop_last()[j] == x;
            assert(entries[j] == x);
        }
        if entries.contains(x) {
            let j = choose|j: int| 0 <= j < entries.len() && entries[j] == x;
            if j < entries.len() - 1 {
                assert(entries.drop_last()[j] == x);
            }
        }
        if access_matches(f, entries.last()) {
            assert(rest.push(entries.last())[rest.len() as int] == entries.last());
            if rest.push(entries.last()).contains(x) {
                let j = choose|j: int| 0 <= j < rest.push(entries.last()).len() && rest.push(entries.last())[j] == x;
                if j < rest.len() {
                    assert(rest[j] == x);
                }
            }
            if rest.contains(x) {
                let j = choose|j: int| 0 <= j < rest.len() && rest[j] == x;
                assert(rest.push(entries.last())[j] == x);
            }
        }
    }
}

/// Querying the result of a query again with the same filter changes nothing.
pub proof fn law_access_query_idempotent(f: AccessLogFilter, entries: Seq<AccessLogEntryView>)
    ensures
        access_filtered(f, access_filtered(f, entries)) == access_filtered(f, entries),
    decreases entries.len(),
{
    if entries.len() > 0 {
        law_access_query_idempotent(f, entries.drop_last());
        let rest = access_filtered(f, entries.drop_last());
        if access_matches(f, entries.last()) {
            assert(rest.push(entries.last()).drop_last() =~= rest);
        }
    }
}

/// Each filter that is set holds of every entry a query gives, whatever the other
/// filters are: the entry's session, domain and tool are those asked for. And every
/// logged entry whose session, domain and tool are those asked for (where asked) is given.
pub proof fn law_access_filter_each_field(f: AccessLogFilter, entries: Seq<AccessLogEntryView>, x: AccessLogEntryView)
    ensures
        access_filtered(f, entries).contains(x) ==> {
            &&& entries.contains(x)
            &&& (f.session_id is Some ==> x.session_id == f.session_id.unwrap()@)
            &&& (f.domain is Some ==> x.domain == Some(f.domain.unwrap()@))
            &&& (f.tool is Some ==> x.tool == f.tool.unwrap()@)
        },
        (entries.contains(x)
            && (f.session_id is None || x.session_id == f.session_id.unwrap()@)
            && (f.domain is None || x.domain == Some(f.domain.unwrap()@))
            && (f.tool is None || x.tool == f.tool.unwrap()@))
            ==> access_filtered(f, entries).contains(x),
{
    law_access_query_exact(f, entries, x);
}

} // verus!
