//! The changelog: every mutation of the knowledge base, with its session, domain and record.

use vstd::prelude::*;
use crate::types::opt_view;
use crate::session::Timestamp;
use crate::config::{spec_join, spec_kb_dir, get_kb_dir, join_path};

verus! {

/// A field that a mutation changed, from its old value to its new one.
pub struct FieldChange {
    pub field: String,
    pub old: String,
    pub new: String,
}

pub open spec fn changes_view(v: Vec<FieldChange>) -> Seq<(Seq<char>, Seq<char>, Seq<char>)> {
    v@.map_values(|c: FieldChange| (c.field@, c.old@, c.new@))
}

pub open spec fn opt_changes_view(o: Option<Vec<FieldChange>>) -> Option<Seq<(Seq<char>, Seq<char>, Seq<char>)>> {
    match o {
        Some(v) => Some(changes_view(v)),
        None => None,
    }
}

/// One mutation of the knowledge base.
pub struct ChangelogEntry {
    pub session_id: Option<String>,
    pub timestamp: Timestamp,
    pub action: String,
    pub domain: String,
    pub entry_id: String,
    pub summary: Option<String>,
    pub diff: Option<Vec<FieldChange>>,
}

pub struct ChangelogEntryView {
    pub session_id: Option<Seq<char>>,
    pub timestamp: Timestamp,
    pub action: Seq<char>,
    pub domain: Seq<char>,
    pub entry_id: Seq<char>,
    pub summary: Option<Seq<char>>,
    pub diff: Option<Seq<(Seq<char>, Seq<char>, Seq<char>)>>,
}

impl View for ChangelogEntry {
    type V = ChangelogEntryView;

    open spec fn view(&self) -> ChangelogEntryView {
        ChangelogEntryView {
            session_id: opt_view(self.session_id),
            timestamp: self.timestamp,
            action: self.action@,
            domain: self.domain@,
            entry_id: self.entry_id@,
            summary: opt_view(self.summary),
            diff: opt_changes_view(self.diff),
        }
    }
}

/// Which entries to keep: each filter that is set must agree with the entry.
pub struct ChangelogFilter {
    pub session_id: Option<String>,
    pub domain: Option<String>,
    pub action: Option<String>,
}

impl Default for ChangelogFilter {
    /// The filter that keeps every entry.
    fn default() -> (res: Self)
        ensures
            res.session_id is None,
            res.domain is None,
            res.action is None,
    {
        ChangelogFilter { session_id: None, domain: None, action: None }
    }
}

/// Whether `e` passes `f`: same session if one is asked for (an entry without session
/// never passes then), same domain if one is asked for, same action if one is asked for.
pub open spec fn change_matches(f: ChangelogFilter, e: ChangelogEntryView) -> bool {
    &&& (f.session_id matches Some(sid) ==> e.session_id == Some(sid@))
    &&& (f.domain matches Some(d) ==> e.domain == d@)
    &&& (f.action matches Some(a) ==> e.action == a@)
}

/// The entries of `entries` that pass `f`, in order.
pub open spec fn changes_filtered(f: ChangelogFilter, entries: Seq<ChangelogEntryView>) -> Seq<ChangelogEntryView>
    decreases entries.len(),
{
    if entries.len() == 0 {
        seq![]
    } else {
        let rest = changes_filtered(f, entries.drop_last());
        if change_matches(f, entries.last()) { rest.push(entries.last()) } else { rest }
    }
}

pub open spec fn change_entries_view(v: Vec<ChangelogEntry>) -> Seq<ChangelogEntryView> {
    v@.map_values(|e: ChangelogEntry| e@)
}

/// `<cwd>/.kb/changelog.jsonl`
pub open spec fn spec_changelog_path(cwd: Seq<char>) -> Seq<char> {
    spec_join(spec_kb_dir(cwd), "changelog.jsonl"@)
}

/// The file the changelog is kept in.
pub fn changelog_path(cwd: &str) -> (res: String)
    ensures
        res@ == spec_changelog_path(cwd@),
{
    let kb = get_kb_dir(cwd);
    join_path(kb.as_str(), "changelog.jsonl")
}

impl ChangelogFilter {
    /// Whether `entry` passes this filter.
    pub fn matches(&self, entry: &ChangelogEntry) -> (res: bool)
        ensures
            res == change_matches(*self, entry@),
    {
        if let Some(sid) = &self.session_id {
            match &entry.session_id {
                Some(s) => {
                    if *s != *sid {
                        return false;
                    }
                },
                None => {
                    return false;
                },
            }
        }
        if let Some(d) = &self.domain {
            if entry.domain != *d {
                return false;
            }
        }
        if let Some(a) = &self.action {
            if entry.action != *a {
                return false;
            }
        }
        true
    }
}

/// The logged mutations that pass `filters`, in the order they were logged.
pub fn query_changelog(entries: Vec<ChangelogEntry>, filters: &ChangelogFilter) -> (res: Vec<ChangelogEntry>)
    ensures
        change_entries_view(res) == changes_filtered(*filters, change_entries_view(entries)),
{
    let ghost input = change_entries_view(entries);
    let mut rest = entries;
    let mut res: Vec<ChangelogEntry> = Vec::new();
    let n = rest.len();
    let mut i: usize = 0;
    while i < n
        invariant
            n == input.len(),
            i <= n,
            change_entries_view(rest) == input.skip(i as int),
            change_entries_view(res) == changes_filtered(*filters, input.take(i as int)),
        decreases n - i,
    {
        let ghost old_rest = rest@;
        let ghost old_view = change_entries_view(rest);
        assert(old_view.len() == old_rest.len());
        let e = rest.remove(0);
        assert(e@ == old_view[0]);
        assert forall|k: int| 0 <= k < change_entries_view(rest).len() implies change_entries_view(rest)[k] == input.skip(i + 1)[k] by {
            assert(rest@[k] == old_rest[k + 1]);
            assert(old_view[k + 1] == input.skip(i as int)[k + 1]);
        }
        assert(change_entries_view(rest) =~= input.skip(i + 1));
        assert(input.take(i + 1).drop_last() =~= input.take(i as int));
        assert(input.take(i + 1).last() == e@);
        if filters.matches(&e) {
            let ghost before = res@;
            let ghost ev = e@;
            res.push(e);
            assert(change_entries_view(res) =~= before.map_values(|x: ChangelogEntry| x@).push(ev));
        }
        i = i + 1;
    }
    assert(input.take(n as int) =~= input);
    res
}


/// The filter with nothing set keeps every entry, in order.
pub proof fn law_change_no_filter_keeps_all(f: ChangelogFilter, entries: Seq<ChangelogEntryView>)
    requires
        f.session_id is None,
        f.domain is None,
        f.action is None,
    ensures
        changes_filtered(f, entries) == entries,
    decreases entries.len(),
{
    if entries.len() > 0 {
        law_change_no_filter_keeps_all(f, entries.drop_last());
        assert(entries.drop_last().push(entries.last()) =~= entries);
    }
}

/// A query gives back exactly the entries that pass the filter: each one it gives passes
/// and was logged, and each logged entry that passes is given.
pub proof fn law_change_query_exact(f: ChangelogFilter, entries: Seq<ChangelogEntryView>, x: ChangelogEntryView)
    ensures
        changes_filtered(f, entries).contains(x) <==> (entries.contains(x) && change_matches(f, x)),
    decreases entries.len(),
{
    if entries.len() > 0 {
        law_change_query_exact(f, entries.drop_last(), x);
        let rest = changes_filtered(f, entries.drop_last());
        if entries.drop_last().contains(x) {
            let j = choose|j: int| 0 <= j < entries.drop_last().len() && entries.drop_last()[j] == x;
            assert(entries[j] == x);
        }
        if entries.contains(x) {
            let j = choose|j: int| 0 <= j < entries.len() && entries[j] == x;
            if j < entries.len() - 1 {
                assert(entries.drop_last()[j] == x);
            }
        }
        if change_matches(f, entries.last()) {
            assert(rest.push(entries.last())[rest.len() as int] == entries.last());
            if rest.push(entries.last()).contains(x) {
                let j = choose|j: int| 0 <= j < rest.push(entries.last()).len() && rest.push(entries.last())[j] == x;
                if j < rest.len() {
                    assert(rest[j] == x);
                }
            }
            if rest.contains(x) {
                let j = choose|j: int| 0 <= j < rest.len() && rest[j] == x;
                assert(rest.push(entries.last())[j] == x);
            }
        }
    }
}

/// Querying the result of a query again with the same filter changes nothing.
pub proof fn law_change_query_idempotent(f: ChangelogFilter, entries: Seq<ChangelogEntryView>)
    ensures
        changes_filtered(f, changes_filtered(f, entries)) == changes_filtered(f, entries),
    decreases entries.len(),
{
    if entries.len() > 0 {
        law_change_query_idempotent(f, entries.drop_last());
        let rest = changes_filtered(f, entries.drop_last());
        if change_matches(f, entries.last()) {
            assert(rest.push(entries.last()).drop_last() =~= rest);
        }
    }
}

/// Each filter that is set holds of every entry a query gives, whatever the other
/// filters are: the entry's session, domain and action are those asked for. And every
/// logged entry whose session, domain and action are those asked for (where asked) is given.
pub proof fn law_change_filter_each_field(f: ChangelogFilter, entries: Seq<ChangelogEntryView>, x: ChangelogEntryView)
    ensures
        changes_filtered(f, entries).contains(x) ==> {
            &&& entries.contains(x)
            &&& (f.session_id is Some ==> x.session_id == Some(f.session_id.unwrap()@))
            &&& (f.domain is Some ==> x.domain == f.domain.unwrap()@)
            &&& (f.action is Some ==> x.action == f.action.unwrap()@)
        },
        (entries.contains(x)
            && (f.session_id is None || x.session_id == Some(f.session_id.unwrap()@))
            && (f.domain is None || x.domain == f.domain.unwrap()@)
            && (f.action is None || x.action == f.action.unwrap()@))
            ==> changes_filtered(f, entries).contains(x),
{
    law_change_query_exact(f, entries, x);
}

} // verus!
