//! The agent-facing tools: their arguments and the decisions each one makes before and
//! after it touches the knowledge base.

use vstd::prelude::*;
use crate::types::{
    spec_is_named_type,
    ExpertiseRecord, RecordView, RecordType, Classification, CommonView, KbConfig, KbError,
    KbErrorView, opt_view, opt_str_view, strings_view, opt_strings_view, record_type_name,
};
use crate::text::clone_strings;
use crate::config::{ensure_domain_exists, available_domains};
use crate::check::{spec_domains_to_check, records_view};
use crate::session::Timestamp;
use crate::access_log::{AccessLogEntry, AccessLogEntryView};
use crate::changelog::{FieldChange, ChangelogEntry, ChangelogEntryView, changes_view, opt_changes_view};

verus! {

/// Starts a session and primes the agent with the knowledge of some or all domains.
pub struct KbPrimeTool {
    /// Optional label for the session.
    pub label: Option<String>,
    /// Domains to prime; all domains when absent.
    pub domains: Option<Vec<String>>,
}

/// Resumes an earlier session.
pub struct KbSessionResumeTool {
    /// The session to resume.
    pub session_id: String,
}

/// Ends the current session.
pub struct KbSessionEndTool {}

/// Lists the records of one domain, optionally of one type.
pub struct KbQueryTool {
    /// The domain to query.
    pub domain: String,
    /// The record type to keep, if any.
    pub record_type: Option<String>,
}

/// Lists the records of every domain.
pub struct KbQueryAllTool {}

/// Searches records by text.
pub struct KbSearchTool {
    /// The search text.
    pub query: String,
    /// The domain to search; all domains when absent.
    pub domain: Option<String>,
    /// The record type to keep, if any.
    pub record_type: Option<String>,
}

/// Records a new piece of knowledge.
pub struct KbRecordTool {
    /// The domain to record in.
    pub domain: String,
    /// convention, pattern, failure, decision, reference or guide.
    pub record_type: String,
    /// Why this approach is preferred.
    pub description: String,
    /// Name, for patterns, references and guides.
    pub name: Option<String>,
    /// Title, for decisions.
    pub title: Option<String>,
    /// Rationale, for decisions (and the resolution of failures).
    pub rationale: Option<String>,
    /// Tags.
    pub tags: Option<Vec<String>>,
}

/// Edits fields of an existing record.
///
/// Each field is named at most once among the updates (see `distinct_fields`).
pub struct KbEditTool {
    /// The domain that holds the record.
    pub domain: String,
    /// The record's id or a prefix of it.
    pub entry_id: String,
    /// Field names and their new values, each field named once.
    pub updates: Vec<(String, String)>,
}

/// Deletes a record.
pub struct KbDeleteTool {
    /// The domain that holds the record.
    pub domain: String,
    /// The record's id or a prefix of it.
    pub entry_id: String,
}

/// Lists the domains with their record counts.
pub struct KbStatusTool {}

/// Notes a question that the knowledge base could not answer.
pub struct KbOracleTool {
    /// The question.
    pub query: String,
    /// The domain it concerns, if known.
    pub domain: Option<String>,
}

/// Notes whether a record helped.
pub struct KbFeedbackTool {
    /// The record.
    pub entry_id: String,
    /// `helpful` or `not-helpful`.
    pub signal: String,
    /// The domain of the record, if known.
    pub domain: Option<String>,
}

/// Checks the file references of one domain's records, or of all.
pub struct KbCheckTool {
    /// The domain to check; all domains when absent.
    pub domain: Option<String>,
}

/// Whether two strings are equal.
pub fn str_eq(a: &str, b: &str) -> (res: bool)
    ensures
        res == (a@ == b@),
{
    a.to_owned() == b.to_owned()
}

/// The record type a tool argument names.
pub open spec fn spec_parse_record_type(s: Seq<char>) -> Option<RecordType> {
    if s == "convention"@ {
        Some(RecordType::Convention)
    } else if s == "pattern"@ {
        Some(RecordType::Pattern)
    } else if s == "failure"@ {
        Some(RecordType::Failure)
    } else if s == "decision"@ {
        Some(RecordType::Decision)
    } else if s == "reference"@ {
        Some(RecordType::Reference)
    } else if s == "guide"@ {
        Some(RecordType::Guide)
    } else {
        None
    }
}

/// Reads a record type from its lower-case name.
pub fn parse_record_type(s: &str) -> (res: Option<RecordType>)
    ensures
        res == spec_parse_record_type(s@),
{
    if str_eq(s, "convention") {
        Some(RecordType::Convention)
    } else if str_eq(s, "pattern") {
        Some(RecordType::Pattern)
    } else if str_eq(s, "failure") {
        Some(RecordType::Failure)
    } else if str_eq(s, "decision") {
        Some(RecordType::Decision)
    } else if str_eq(s, "reference") {
        Some(RecordType::Reference)
    } else if str_eq(s, "guide") {
        Some(RecordType::Guide)
    } else {
        None
    }
}

/// The message for a record type that does not exist.
pub open spec fn unknown_type_message(s: Seq<char>) -> Seq<char> {
    "Unknown record type: "@ + s
}

/// The type filter of a query or search: none when no type is given, the type when its
/// name is known, else an error message.
pub open spec fn spec_type_filter(rt: Option<Seq<char>>) -> Result<Option<RecordType>, Seq<char>> {
    match rt {
        None => Ok(None),
        Some(s) => match spec_parse_record_type(s) {
            Some(t) => Ok(Some(t)),
            None => Err(unknown_type_message(s)),
        },
    }
}

/// Reads the optional type filter of a query or search.
pub fn type_filter(rt: &Option<String>) -> (res: Result<Option<RecordType>, String>)
    ensures
        match res {
            Ok(t) => spec_type_filter(opt_view(*rt)) == Ok::<Option<RecordType>, Seq<char>>(t),
            Err(m) => spec_type_filter(opt_view(*rt)) == Err::<Option<RecordType>, Seq<char>>(m@),
        },
{
    match rt {
        None => Ok(None),
        Some(s) => match parse_record_type(s.as_str()) {
            Some(t) => Ok(Some(t)),
            None => Err("Unknown record type: ".to_owned().concat(s.as_str())),
        },
    }
}

impl KbQueryTool {
    /// The record type this query keeps, if any.
    pub fn type_filter(&self) -> (res: Result<Option<RecordType>, String>)
        ensures
            match res {
                Ok(t) => spec_type_filter(opt_view(self.record_type)) == Ok::<Option<RecordType>, Seq<char>>(t),
                Err(m) => spec_type_filter(opt_view(self.record_type)) == Err::<Option<RecordType>, Seq<char>>(m@),
            },
    {
        type_filter(&self.record_type)
    }
}

impl KbSearchTool {
    /// The record type this search keeps, if any.
    pub fn type_filter(&self) -> (res: Result<Option<RecordType>, String>)
        ensures
            match res {
                Ok(t) => spec_type_filter(opt_view(self.record_type)) == Ok::<Option<RecordType>, Seq<char>>(t),
                Err(m) => spec_type_filter(opt_view(self.record_type)) == Err::<Option<RecordType>, Seq<char>>(m@),
            },
    {
        type_filter(&self.record_type)
    }

    /// The domains to search: the one asked for, which the configuration must list, or all.
    pub fn target_domains(&self, config: &KbConfig) -> (res: Result<Vec<String>, KbError>)
        ensures
            match res {
                Ok(v) => spec_domains_to_check(strings_view(config.domains), opt_view(self.domain)) == Ok::<Seq<Seq<char>>, KbErrorView>(strings_view(v)),
                Err(e) => spec_domains_to_check(strings_view(config.domains), opt_view(self.domain)) == Err::<Seq<Seq<char>>, KbErrorView>(e@),
            },
    {
        match &self.domain {
            Some(d) => {
                ensure_domain_exists(config, d.as_str())?;
                let v = vec![d.clone()];
                assert(strings_view(v) =~= seq![d@]);
                Ok(v)
            },
            None => Ok(clone_strings(&config.domains)),
        }
    }
}

/// The first of `asked` that `configured` does not list, if any.
pub open spec fn first_unlisted(asked: Seq<Seq<char>>, configured: Seq<Seq<char>>) -> Option<Seq<char>>
    decreases asked.len(),
{
    if asked.len() == 0 {
        None
    } else if !configured.contains(asked[0]) {
        Some(asked[0])
    } else {
        first_unlisted(asked.drop_first(), configured)
    }
}

/// The domains a prime covers: those asked for, each of which the configuration must
/// list (the first one it does not is reported), or all configured domains.
pub open spec fn spec_prime_domains(asked: Option<Seq<Seq<char>>>, configured: Seq<Seq<char>>) -> Result<Seq<Seq<char>>, KbErrorView> {
    match asked {
        None => Ok(configured),
        Some(ds) => match first_unlisted(ds, configured) {
            Some(d) => Err(KbErrorView::DomainNotFound { domain: d, available: available_domains(configured) }),
            None => Ok(ds),
        },
    }
}

impl KbPrimeTool {
    /// The domains this prime covers (see `spec_prime_domains`).
    pub fn target_domains(&self, config: &KbConfig) -> (res: Result<Vec<String>, KbError>)
        ensures
            match res {
                Ok(v) => spec_prime_domains(opt_strings_view(self.domains), strings_view(config.domains)) == Ok::<Seq<Seq<char>>, KbErrorView>(strings_view(v)),
                Err(e) => spec_prime_domains(opt_strings_view(self.domains), strings_view(config.domains)) == Err::<Seq<Seq<char>>, KbErrorView>(e@),
            },
    {
        match &self.domains {
            None => Ok(clone_strings(&config.domains)),
            Some(ds) => {
                let ghost asked = strings_view(*ds);
                let ghost configured = strings_view(config.domains);
                assert(asked.skip(0) =~= asked);
                let mut i: usize = 0;
                while i < ds.len()
                    invariant
                        asked == strings_view(*ds),
                        opt_strings_view(self.domains) == Some(asked),
                        configured == strings_view(config.domains),
                        i <= ds@.len(),
                        first_unlisted(asked, configured) == first_unlisted(asked.skip(i as int), configured),
                    decreases ds@.len() - i,
                {
                    assert(asked.skip(i as int)[0] == asked[i as int]);
                    assert(asked.skip(i as int).drop_first() =~= asked.skip(i + 1));
                    ensure_domain_exists(config, ds[i].as_str())?;
                    i = i + 1;
                }
                assert(asked.skip(i as int).len() == 0);
                Ok(clone_strings(ds))
            },
        }
    }
}

/// The common fields of a record built by the record tool: no id, tactical, recorded at
/// `recorded_at`, no evidence, the given tags, no links.
pub open spec fn new_common(recorded_at: Seq<char>, tags: Option<Seq<Seq<char>>>) -> CommonView {
    CommonView {
        id: None,
        classification: Classification::Tactical,
        recorded_at,
        evidence: None,
        tags,
        relates_to: None,
        supersedes: None,
    }
}

/// The record the record tool builds, or the message of what is missing: a convention
/// holds the description; a pattern, reference or guide needs a name; a failure takes
/// the rationale as resolution, `unresolved` without one; a decision needs a title and a
/// rationale.
pub open spec fn spec_build_record(tool: KbRecordTool, recorded_at: Seq<char>) -> Result<RecordView, Seq<char>> {
    let common = new_common(recorded_at, opt_strings_view(tool.tags));
    let kind = tool.record_type@;
    let description = tool.description@;
    if kind == "convention"@ {
        Ok(RecordView::Convention { content: description, common })
    } else if kind == "pattern"@ {
        match tool.name {
            Some(name) => Ok(RecordView::Pattern { name: name@, description, files: None, common }),
            None => Err("Pattern requires 'name'"@),
        }
    } else if kind == "failure"@ {
        let resolution = match tool.rationale {
            Some(r) => r@,
            None => "unresolved"@,
        };
        Ok(RecordView::Failure { description, resolution, common })
    } else if kind == "decision"@ {
        match tool.title {
            None => Err("Decision requires 'title'"@),
            Some(title) => match tool.rationale {
                None => Err("Decision requires 'rationale'"@),
                Some(rationale) => Ok(RecordView::Decision { title: title@, rationale: rationale@, date: None, common }),
            },
        }
    } else if kind == "reference"@ {
        match tool.name {
            Some(name) => Ok(RecordView::Reference { name: name@, description, files: None, common }),
            None => Err("Reference requires 'name'"@),
        }
    } else if kind == "guide"@ {
        match tool.name {
            Some(name) => Ok(RecordView::Guide { name: name@, description, common }),
            None => Err("Guide requires 'name'"@),
        }
    } else {
        Err(unknown_type_message(kind))
    }
}

fn clone_opt_strings(o: &Option<Vec<String>>) -> (res: Option<Vec<String>>)
    ensures
        opt_strings_view(res) == opt_strings_view(*o),
{
    match o {
        Some(v) => Some(clone_strings(v)),
        None => None,
    }
}

impl KbRecordTool {
    /// Builds the record to store (see `spec_build_record`).
    pub fn build_record(&self, recorded_at: String) -> (res: Result<ExpertiseRecord, String>)
        ensures
            match res {
                Ok(r) => spec_build_record(*self, recorded_at@) == Ok::<RecordView, Seq<char>>(r@),
                Err(m) => spec_build_record(*self, recorded_at@) == Err::<RecordView, Seq<char>>(m@),
            },
    {
        let classification = Classification::Tactical;
        let tags = clone_opt_strings(&self.tags);
        let kind = self.record_type.as_str();
        let description = self.description.clone();
        if str_eq(kind, "convention") {
            Ok(ExpertiseRecord::Convention {
                id: None,
                content: description,
                classification,
                recorded_at,
                evidence: None,
                tags,
                relates_to: None,
                supersedes: None,
            })
        } else if str_eq(kind, "pattern") {
            match &self.name {
                Some(name) => Ok(ExpertiseRecord::Pattern {
                    id: None,
                    name: name.clone(),
                    description,
                    files: None,
                    classification,
                    recorded_at,
                    evidence: None,
                    tags,
                    relates_to: None,
                    supersedes: None,
                }),
                None => Err("Pattern requires 'name'".to_owned()),
            }
        } else if str_eq(kind, "failure") {
            let resolution = match &self.rationale {
                Some(r) => r.clone(),
                None => "unresolved".to_owned(),
            };
            Ok(ExpertiseRecord::Failure {
                id: None,
                description,
                resolution,
                classification,
                recorded_at,
                evidence: None,
                tags,
                relates_to: None,
                supersedes: None,
            })
        } else if str_eq(kind, "decision") {
            match &self.title {
                None => Err("Decision requires 'title'".to_owned()),
                Some(title) => match &self.rationale {
                    None => Err("Decision requires 'rationale'".to_owned()),
                    Some(rationale) => Ok(ExpertiseRecord::Decision {
                        id: None,
                        title: title.clone(),
                        rationale: rationale.clone(),
                        date: None,
                        classification,
                        recorded_at,
                        evidence: None,
                        tags,
                        relates_to: None,
                        supersedes: None,
                    }),
                },
            }
        } else if str_eq(kind, "reference") {
            match &self.name {
                Some(name) => Ok(ExpertiseRecord::Reference {
                    id: None,
                    name: name.clone(),
                    description,
                    files: None,
                    classification,
                    recorded_at,
                    evidence: None,
                    tags,
                    relates_to: None,
                    supersedes: None,
                }),
                None => Err("Reference requires 'name'".to_owned()),
            }
        } else if str_eq(kind, "guide") {
            match &self.name {
                Some(name) => Ok(ExpertiseRecord::Guide {
                    id: None,
                    name: name.clone(),
                    description,
                    classification,
                    recorded_at,
                    evidence: None,
                    tags,
                    relates_to: None,
                    supersedes: None,
                }),
                None => Err("Guide requires 'name'".to_owned()),
            }
        } else {
            Err("Unknown record type: ".to_owned().concat(kind))
        }
    }
}


/// The record after setting the field `key` to `value`: `content` of a convention, `name`
/// of a pattern, reference or guide, `description` of a pattern, failure, reference or
/// guide, `resolution` of a failure, `title` and `rationale` of a decision. A field the
/// record does not have, or an unknown field, leaves it as it is.
pub open spec fn spec_apply_update(r: RecordView, key: Seq<char>, value: Seq<char>) -> RecordView {
    if key == "content"@ {
        match r {
            RecordView::Convention { common, .. } => RecordView::Convention { content: value, common },
            _ => r,
        }
    } else if key == "name"@ {
        match r {
            RecordView::Pattern { description, files, common, .. } => RecordView::Pattern { name: value, description, files, common },
            RecordView::Reference { description, files, common, .. } => RecordView::Reference { name: value, description, files, common },
            RecordView::Guide { description, common, .. } => RecordView::Guide { name: value, description, common },
            _ => r,
        }
    } else if key == "description"@ {
        match r {
            RecordView::Pattern { name, files, common, .. } => RecordView::Pattern { name, description: value, files, common },
            RecordView::Failure { resolution, common, .. } => RecordView::Failure { description: value, resolution, common },
            RecordView::Reference { name, files, common, .. } => RecordView::Reference { name, description: value, files, common },
            RecordView::Guide { name, common, .. } => RecordView::Guide { name, description: value, common },
            _ => r,
        }
    } else if key == "resolution"@ {
        match r {
            RecordView::Failure { description, common, .. } => RecordView::Failure { description, resolution: value, common },
            _ => r,
        }
    } else if key == "title"@ {
        match r {
            RecordView::Decision { rationale, date, common, .. } => RecordView::Decision { title: value, rationale, date, common },
            _ => r,
        }
    } else if key == "rationale"@ {
        match r {
            RecordView::Decision { title, date, common, .. } => RecordView::Decision { title, rationale: value, date, common },
            _ => r,
        }
    } else {
        r
    }
}

/// The record after each update in turn.
pub open spec fn spec_apply_updates(r: RecordView, updates: Seq<(Seq<char>, Seq<char>)>) -> RecordView
    decreases updates.len(),
{
    if updates.len() == 0 {
        r
    } else {
        spec_apply_update(spec_apply_updates(r, updates.drop_last()), updates.last().0, updates.last().1)
    }
}

pub open spec fn updates_view(v: Vec<(String, String)>) -> Seq<(Seq<char>, Seq<char>)> {
    v@.map_values(|p: (String, String)| (p.0@, p.1@))
}

/// Whether no field is named twice among `updates`.
pub open spec fn distinct_fields(updates: Seq<(Seq<char>, Seq<char>)>) -> bool {
    forall|i: int, j: int| 0 <= i < j < updates.len() ==> #[trigger] updates[i].0 != #[trigger] updates[j].0
}

/// Sets the field `key` of `record` to `value` (see `spec_apply_update`).
pub fn apply_update(record: &mut ExpertiseRecord, key: &str, value: &String)
    ensures
        final(record)@ == spec_apply_update(old(record)@, key@, value@),
{
    if str_eq(key, "content") {
        if let ExpertiseRecord::Convention { content, .. } = record {
            *content = value.clone();
        }
    } else if str_eq(key, "name") {
        match record {
            ExpertiseRecord::Pattern { name, .. } => {
                *name = value.clone();
            },
            ExpertiseRecord::Reference { name, .. } => {
                *name = value.clone();
            },
            ExpertiseRecord::Guide { name, .. } => {
                *name = value.clone();
            },
            _ => {},
        }
    } else if str_eq(key, "description") {
        match record {
            ExpertiseRecord::Pattern { description, .. } => {
                *description = value.clone();
            },
            ExpertiseRecord::Failure { description, .. } => {
                *description = value.clone();
            },
            ExpertiseRecord::Reference { description, .. } => {
                *description = value.clone();
            },
            ExpertiseRecord::Guide { description, .. } => {
                *description = value.clone();
            },
            _ => {},
        }
    } else if str_eq(key, "resolution") {
        if let ExpertiseRecord::Failure { resolution, .. } = record {
            *resolution = value.clone();
        }
    } else if str_eq(key, "title") {
        if let ExpertiseRecord::Decision { title, .. } = record {
            *title = value.clone();
        }
    } else if str_eq(key, "rationale") {
        if let ExpertiseRecord::Decision { rationale, .. } = record {
            *rationale = value.clone();
        }
    }
}

impl KbEditTool {
    /// Applies this edit's updates to `record`, in order.
    pub fn apply_updates(&self, record: &mut ExpertiseRecord)
        requires
            distinct_fields(updates_view(self.updates)),
        ensures
            final(record)@ == spec_apply_updates(old(record)@, updates_view(self.updates)),
    {
        let ghost start = record@;
        let ghost ups = updates_view(self.updates);
        let mut i: usize = 0;
        while i < self.updates.len()
            invariant
                ups == updates_view(self.updates),
                i <= self.updates@.len(),
                record@ == spec_apply_updates(start, ups.take(i as int)),
            decreases self.updates@.len() - i,
        {
            assert(ups.take(i + 1).drop_last() =~= ups.take(i as int));
            let (key, value) = &self.updates[i];
            apply_update(record, key.as_str(), value);
            i = i + 1;
        }
        assert(ups.take(self.updates@.len() as int) =~= ups);
    }

    /// The changes this edit logs: each updated field, with `...` standing for its old value.
    pub fn diff(&self) -> (res: Vec<FieldChange>)
        requires
            distinct_fields(updates_view(self.updates)),
        ensures
            changes_view(res) == updates_view(self.updates).map_values(|p: (Seq<char>, Seq<char>)| (p.0, "..."@, p.1)),
    {
        let ghost ups = updates_view(self.updates);
        let mut res: Vec<FieldChange> = Vec::new();
        let mut i: usize = 0;
        while i < self.updates.len()
            invariant
                ups == updates_view(self.updates),
                i <= self.updates@.len(),
                changes_view(res) == ups.take(i as int).map_values(|p: (Seq<char>, Seq<char>)| (p.0, "..."@, p.1)),
            decreases self.updates@.len() - i,
        {
            let (key, value) = &self.updates[i];
            let change = FieldChange { field: key.clone(), old: "...".to_owned(), new: value.clone() };
            let ghost before = changes_view(res);
            let ghost cv = (change.field@, change.old@, change.new@);
            assert(ups[i as int] == (key@, value@));
            res.push(change);
            assert(changes_view(res) =~= before.push(cv));
            assert(changes_view(res) =~= ups.take(i + 1).map_values(|p: (Seq<char>, Seq<char>)| (p.0, "..."@, p.1)));
            i = i + 1;
        }
        assert(ups.take(self.updates@.len() as int) =~= ups);
        res
    }
}


fn opt_owned(o: Option<&str>) -> (res: Option<String>)
    ensures
        opt_view(res) == opt_str_view(o),
{
    match o {
        Some(s) => Some(s.to_owned()),
        None => None,
    }
}

/// The access-log entry for a tool use: none outside a session, else the use with its
/// session, moment, tool and details.
pub open spec fn spec_access_entry(
    session_id: Option<Seq<char>>,
    timestamp: Timestamp,
    tool: Seq<char>,
    domain: Option<Seq<char>>,
    query: Option<Seq<char>>,
    entry_id: Option<Seq<char>>,
    result_count: Option<usize>,
) -> Option<AccessLogEntryView> {
    match session_id {
        None => None,
        Some(sid) => Some(AccessLogEntryView {
            session_id: sid,
            timestamp,
            tool,
            domain,
            query,
            entry_id,
            result_count,
            signal: None,
        }),
    }
}

/// Builds the access-log entry for a tool use (see `spec_access_entry`).
pub fn access_entry(
    session_id: Option<&str>,
    timestamp: Timestamp,
    tool: &str,
    domain: Option<&str>,
    query: Option<&str>,
    entry_id: Option<&str>,
    result_count: Option<usize>,
) -> (res: Option<AccessLogEntry>)
    ensures
        match res {
            Some(e) => spec_access_entry(opt_str_view(session_id), timestamp, tool@, opt_str_view(domain), opt_str_view(query), opt_str_view(entry_id), result_count) == Some(e@),
            None => spec_access_entry(opt_str_view(session_id), timestamp, tool@, opt_str_view(domain), opt_str_view(query), opt_str_view(entry_id), result_count) is None,
        },
{
    let sid = match session_id {
        Some(s) => s,
        None => return None,
    };
    Some(AccessLogEntry {
        session_id: sid.to_owned(),
        timestamp,
        tool: tool.to_owned(),
        domain: opt_owned(domain),
        query: opt_owned(query),
        entry_id: opt_owned(entry_id),
        result_count,
        signal: None,
    })
}

/// The changelog entry for a mutation: who made it, when, what it did to which record.
pub fn change_entry(
    session_id: Option<&str>,
    timestamp: Timestamp,
    action: &str,
    domain: &str,
    entry_id: &str,
    summary: Option<&str>,
    diff: Option<Vec<FieldChange>>,
) -> (res: ChangelogEntry)
    ensures
        res@ == (ChangelogEntryView {
            session_id: opt_str_view(session_id),
            timestamp,
            action: action@,
            domain: domain@,
            entry_id: entry_id@,
            summary: opt_str_view(summary),
            diff: opt_changes_view(diff),
        }),
{
    ChangelogEntry {
        session_id: opt_owned(session_id),
        timestamp,
        action: action.to_owned(),
        domain: domain.to_owned(),
        entry_id: entry_id.to_owned(),
        summary: opt_owned(summary),
        diff,
    }
}

impl KbFeedbackTool {
    /// The access-log entry for this feedback: none outside a session, else the signal
    /// on the record, with its domain when given.
    pub fn access_entry(&self, session_id: Option<&str>, timestamp: Timestamp) -> (res: Option<AccessLogEntry>)
        ensures
            match session_id {
                None => res is None,
                Some(sid) => res matches Some(e) && e@ == (AccessLogEntryView {
                    session_id: sid@,
                    timestamp,
                    tool: "feedback"@,
                    domain: opt_view(self.domain),
                    query: None,
                    entry_id: Some(self.entry_id@),
                    result_count: None,
                    signal: Some(self.signal@),
                }),
            },
    {
        let sid = match session_id {
            Some(s) => s,
            None => return None,
        };
        let domain = match &self.domain {
            Some(d) => Some(d.clone()),
            None => None,
        };
        Some(AccessLogEntry {
            session_id: sid.to_owned(),
            timestamp,
            tool: "feedback".to_owned(),
            domain,
            query: None,
            entry_id: Some(self.entry_id.clone()),
            result_count: None,
            signal: Some(self.signal.clone()),
        })
    }

    /// The reply to this feedback: `Feedback '<signal>' recorded for entry <id>.`
    pub fn message(&self) -> (res: String)
        ensures
            res@ == "Feedback '"@ + self.signal@ + "' recorded for entry "@ + self.entry_id@ + "."@,
    {
        "Feedback '".to_owned().concat(self.signal.as_str()).concat("' recorded for entry ").concat(self.entry_id.as_str()).concat(".")
    }
}

impl KbOracleTool {
    /// The reply to a noted knowledge gap.
    pub fn message(&self) -> (res: String)
        ensures
            res@ == "Knowledge gap recorded."@,
    {
        "Knowledge gap recorded.".to_owned()
    }
}

impl KbSessionEndTool {
    /// The reply when the session `session_id` has ended: `Session <id> ended.`
    pub fn message(&self, session_id: &str) -> (res: String)
        ensures
            res@ == "Session "@ + session_id@ + " ended."@,
    {
        "Session ".to_owned().concat(session_id).concat(" ended.")
    }
}

/// Whether `a` comes no later than `b` in the order of characters, then of lengths.
pub open spec fn lex_le(a: Seq<char>, b: Seq<char>) -> bool
    decreases a.len(),
{
    if a.len() == 0 {
        true
    } else if b.len() == 0 {
        false
    } else if a[0] != b[0] {
        a[0] < b[0]
    } else {
        lex_le(a.drop_first(), b.drop_first())
    }
}

fn str_lex_le(a: &Vec<char>, b: &Vec<char>) -> (res: bool)
    ensures
        res == lex_le(a@, b@),
{
    let mut i: usize = 0;
    assert(a@.skip(0) =~= a@);
    assert(b@.skip(0) =~= b@);
    while i < a.len() && i < b.len() && a[i] == b[i]
        invariant
            i <= a@.len(),
            i <= b@.len(),
            lex_le(a@, b@) == lex_le(a@.skip(i as int), b@.skip(i as int)),
        decreases a@.len() - i,
    {
        assert(a@.skip(i as int).drop_first() =~= a@.skip(i + 1));
        assert(b@.skip(i as int).drop_first() =~= b@.skip(i + 1));
        i = i + 1;
    }
    if i == a.len() {
        true
    } else if i == b.len() {
        false
    } else {
        assert(a@.skip(i as int)[0] == a@[i as int]);
        assert(b@.skip(i as int)[0] == b@[i as int]);
        a[i] < b[i]
    }
}

/// The greatest of `times` in the order of `lex_le` (the latest of timestamps written
/// in one format), none for an empty list.
pub open spec fn latest(times: Seq<Seq<char>>) -> Option<Seq<char>>
    decreases times.len(),
{
    if times.len() == 0 {
        None
    } else {
        match latest(times.drop_last()) {
            None => Some(times.last()),
            Some(m) => if lex_le(m, times.last()) { Some(times.last()) } else { Some(m) },
        }
    }
}

pub open spec fn record_times(records: Seq<RecordView>) -> Seq<Seq<char>> {
    records.map_values(|r: RecordView| r.common().recorded_at)
}

impl KbStatusTool {
    /// When a domain was last updated: the greatest time at which one of its records was
    /// recorded, none for a domain without records.
    pub fn last_updated(&self, records: &Vec<ExpertiseRecord>) -> (res: Option<String>)
        ensures
            opt_view(res) == latest(record_times(records@.map_values(|r: ExpertiseRecord| r@))),
    {
        let ghost times = record_times(records@.map_values(|r: ExpertiseRecord| r@));
        let mut best: Option<String> = None;
        let mut best_chars: Vec<char> = Vec::new();
        let mut i: usize = 0;
        while i < records.len()
            invariant
                times == record_times(records@.map_values(|r: ExpertiseRecord| r@)),
                i <= records@.len(),
                opt_view(best) == latest(times.take(i as int)),
                best matches Some(b) ==> best_chars@ == b@,
            decreases records@.len() - i,
        {
            assert(times.take(i + 1).drop_last() =~= times.take(i as int));
            let at = records[i].recorded_at();
            assert(times.take(i + 1).last() == at@);
            let at_chars = crate::text::chars_of(at.as_str());
            match &best {
                None => {
                    best = Some(at.clone());
                    best_chars = at_chars;
                },
                Some(_) => {
                    if str_lex_le(&best_chars, &at_chars) {
                        best = Some(at.clone());
                        best_chars = at_chars;
                    }
                },
            }
            i = i + 1;
        }
        assert(times.take(records@.len() as int) =~= times);
        best
    }
}


/// Whether a record is of a named type (see `spec_is_named_type`).
pub open spec fn spec_is_named_type_of(r: RecordView) -> bool {
    spec_is_named_type(r.record_type())
}

/// The identifier a mutation is logged under: the record's id, or `unknown`.
pub open spec fn spec_logged_id(r: RecordView) -> Seq<char> {
    match r.common().id {
        Some(id) => id,
        None => "unknown"@,
    }
}

/// The identifier a mutation is logged under (see `spec_logged_id`).
pub fn logged_id(record: &ExpertiseRecord) -> (res: String)
    ensures
        res@ == spec_logged_id(record@),
{
    match record.id() {
        Some(id) => id.clone(),
        None => {
            proof {
                reveal_strlit("unknown");
            }
            "unknown".to_owned()
        },
    }
}

/// Takes the record at `idx` out of a domain's records, keeping the others in order.
pub fn delete_at(records: &mut Vec<ExpertiseRecord>, idx: usize) -> (removed: ExpertiseRecord)
    requires
        idx < old(records)@.len(),
    ensures
        records_view(*final(records)) == records_view(*old(records)).remove(idx as int),
        removed@ == records_view(*old(records))[idx as int],
{
    let ghost before = records@;
    let removed = records.remove(idx);
    assert(records_view(*records) =~= records_view_of(before).remove(idx as int));
    removed
}

spec fn records_view_of(s: Seq<ExpertiseRecord>) -> Seq<RecordView> {
    s.map_values(|r: ExpertiseRecord| r@)
}

/// The log entries of a mutation of the record `record_id` in `domain`: an access entry
/// (within a session only) with the tool name and record, and a changelog entry with the
/// action, record and summary.
pub open spec fn spec_mutation_entries(
    session_id: Option<Seq<char>>,
    timestamp: Timestamp,
    action: Seq<char>,
    domain: Seq<char>,
    record_id: Seq<char>,
    summary: Seq<char>,
) -> (Option<AccessLogEntryView>, ChangelogEntryView) {
    (
        spec_access_entry(session_id, timestamp, action, Some(domain), None, Some(record_id), None),
        ChangelogEntryView {
            session_id,
            timestamp,
            action,
            domain,
            entry_id: record_id,
            summary: Some(summary),
            diff: None,
        },
    )
}

fn mutation_entries(
    session_id: Option<&str>,
    timestamp: Timestamp,
    action: &str,
    domain: &str,
    record_id: &str,
    summary: &str,
) -> (res: (Option<AccessLogEntry>, ChangelogEntry))
    ensures
        ({
            let (a, c) = spec_mutation_entries(opt_str_view(session_id), timestamp, action@, domain@, record_id@, summary@);
            &&& (match res.0 {
                Some(e) => a == Some(e@),
                None => a is None,
            })
            &&& c == res.1@
        }),
{
    let access = access_entry(session_id, timestamp, action, Some(domain), None, Some(record_id), None);
    let change = change_entry(session_id, timestamp, action, domain, record_id, Some(summary), None);
    (access, change)
}

impl KbDeleteTool {
    /// The log entries of this deletion of `removed`, whose summary is `summary`: both
    /// under the action `delete` and the record's id (or `unknown`).
    pub fn log_entries(
        &self,
        session_id: Option<&str>,
        timestamp: Timestamp,
        removed: &ExpertiseRecord,
        summary: &str,
    ) -> (res: (Option<AccessLogEntry>, ChangelogEntry))
        ensures
            ({
                let (a, c) = spec_mutation_entries(opt_str_view(session_id), timestamp, "delete"@, self.domain@, spec_logged_id(removed@), summary@);
                &&& (match res.0 {
                    Some(e) => a == Some(e@),
                    None => a is None,
                })
                &&& c == res.1@
            }),
    {
        let id = logged_id(removed);
        mutation_entries(session_id, timestamp, "delete", self.domain.as_str(), id.as_str(), summary)
    }
}

/// Where a newly recorded record goes among its domain's records.
pub enum Placement {
    /// It replaces the duplicate at this position.
    Replace(usize),
    /// A duplicate at this position is kept, and nothing is stored.
    Keep(usize),
    /// It goes at the end.
    Append,
}

impl KbRecordTool {
    /// Where `record` goes, given the position of an existing duplicate, if any: a named
    /// record (pattern, decision, reference, guide) replaces its duplicate, another kind
    /// leaves its duplicate in place, and a record without duplicate is appended.
    pub fn placement(record: &ExpertiseRecord, duplicate: Option<usize>) -> (res: Placement)
        ensures
            match duplicate {
                Some(i) => if spec_is_named_type(record@.record_type()) {
                    res matches Placement::Replace(j) && j == i
                } else {
                    res matches Placement::Keep(j) && j == i
                },
                None => res is Append,
            },
    {
        match duplicate {
            Some(i) => {
                if record.record_type().is_named() {
                    Placement::Replace(i)
                } else {
                    Placement::Keep(i)
                }
            },
            None => Placement::Append,
        }
    }

    /// The log entries of this recording of `record`: both under the action `record` and
    /// the record's id (or `unknown`); the changelog's summary is the description given.
    pub fn log_entries(
        &self,
        session_id: Option<&str>,
        timestamp: Timestamp,
        record: &ExpertiseRecord,
    ) -> (res: (Option<AccessLogEntry>, ChangelogEntry))
        ensures
            ({
                let (a, c) = spec_mutation_entries(opt_str_view(session_id), timestamp, "record"@, self.domain@, spec_logged_id(record@), self.description@);
                &&& (match res.0 {
                    Some(e) => a == Some(e@),
                    None => a is None,
                })
                &&& c == res.1@
            }),
    {
        let id = logged_id(record);
        mutation_entries(session_id, timestamp, "record", self.domain.as_str(), id.as_str(), self.description.as_str())
    }
}

/// The records of `records` of type `t`, in order.
pub open spec fn of_type(records: Seq<RecordView>, t: RecordType) -> Seq<RecordView>
    decreases records.len(),
{
    if records.len() == 0 {
        seq![]
    } else {
        let rest = of_type(records.drop_last(), t);
        if records.last().record_type() == t { rest.push(records.last()) } else { rest }
    }
}

/// Keeps the records of type `t`, in order, as a type-filtered query or search does.
pub fn records_of_type(records: Vec<ExpertiseRecord>, t: RecordType) -> (res: Vec<ExpertiseRecord>)
    ensures
        records_view(res) == of_type(records_view(records), t),
{
    let ghost input = records_view(records);
    let mut rest = records;
    let mut res: Vec<ExpertiseRecord> = Vec::new();
    let n = rest.len();
    let mut i: usize = 0;
    while i < n
        invariant
            n == input.len(),
            i <= n,
            records_view(rest) == input.skip(i as int),
            records_view(res) == of_type(input.take(i as int), t),
        decreases n - i,
    {
        let ghost old_rest = rest@;
        let ghost old_view = records_view(rest);
        assert(old_view.len() == old_rest.len());
        let r = rest.remove(0);
        assert(r@ == old_view[0]);
        assert forall|k: int| 0 <= k < records_view(rest).len() implies records_view(rest)[k] == input.skip(i + 1)[k] by {
            assert(rest@[k] == old_rest[k + 1]);
            assert(old_view[k + 1] == input.skip(i as int)[k + 1]);
        }
        assert(records_view(rest) =~= input.skip(i + 1));
        assert(input.take(i + 1).drop_last() =~= input.take(i as int));
        assert(input.take(i + 1).last() == r@);
        if r.record_type() == t {
            let ghost before = res@;
            let ghost rv = r@;
            res.push(r);
            assert(records_view(res) =~= records_view_of(before).push(rv));
        }
        i = i + 1;
    }
    assert(input.take(n as int) =~= input);
    res
}

/// The sum of `counts`.
pub open spec fn sum_counts(counts: Seq<usize>) -> int
    decreases counts.len(),
{
    if counts.len() == 0 { 0 } else { sum_counts(counts.drop_last()) + counts.last() }
}

proof fn lemma_sum_prefix(counts: Seq<usize>, i: int)
    requires
        0 <= i <= counts.len(),
    ensures
        sum_counts(counts.take(i)) <= sum_counts(counts),
    decreases counts.len() - i,
{
    if i < counts.len() {
        lemma_sum_prefix(counts, i + 1);
        assert(counts.take(i + 1).drop_last() =~= counts.take(i));
    } else {
        assert(counts.take(i) =~= counts);
    }
}

/// The total number of matches over the domains searched, whose match counts are `counts`.
pub fn total_count(counts: &Vec<usize>) -> (res: usize)
    requires
        sum_counts(counts@) <= usize::MAX,
    ensures
        res == sum_counts(counts@),
{
    let mut total: usize = 0;
    let mut i: usize = 0;
    while i < counts.len()
        invariant
            i <= counts@.len(),
            sum_counts(counts@) <= usize::MAX,
            total == sum_counts(counts@.take(i as int)),
        decreases counts@.len() - i,
    {
        assert(counts@.take(i + 1).drop_last() =~= counts@.take(i as int));
        proof {
            lemma_sum_prefix(counts@, i + 1);
        }
        total = total + counts[i];
        i = i + 1;
    }
    assert(counts@.take(counts@.len() as int) =~= counts@);
    total
}

/// Editing never changes a record's kind nor its common fields (id, classification,
/// recording time, evidence, tags, links).
pub proof fn law_edit_keeps_identity(r: RecordView, updates: Seq<(Seq<char>, Seq<char>)>)
    ensures
        spec_apply_updates(r, updates).record_type() == r.record_type(),
        spec_apply_updates(r, updates).common() == r.common(),
    decreases updates.len(),
{
    if updates.len() > 0 {
        law_edit_keeps_identity(r, updates.drop_last());
    }
}

/// Updates of two different fields can be applied in either order, so an edit's result
/// does not depend on the order in which its distinct fields are visited.
pub proof fn law_updates_commute(r: RecordView, k1: Seq<char>, v1: Seq<char>, k2: Seq<char>, v2: Seq<char>)
    requires
        k1 != k2,
    ensures
        spec_apply_update(spec_apply_update(r, k1, v1), k2, v2) == spec_apply_update(spec_apply_update(r, k2, v2), k1, v1),
{
}

/// Applying an update twice gives what applying it once gives.
pub proof fn law_update_idempotent(r: RecordView, k: Seq<char>, v: Seq<char>)
    ensures
        spec_apply_update(spec_apply_update(r, k, v), k, v) == spec_apply_update(r, k, v),
{
}

proof fn lemma_lex_le_total(a: Seq<char>, b: Seq<char>)
    ensures
        lex_le(a, b) || lex_le(b, a),
    decreases a.len(),
{
    if a.len() > 0 && b.len() > 0 && a[0] == b[0] {
        lemma_lex_le_total(a.drop_first(), b.drop_first());
    }
}

proof fn lemma_lex_le_trans(a: Seq<char>, b: Seq<char>, c: Seq<char>)
    requires
        lex_le(a, b),
        lex_le(b, c),
    ensures
        lex_le(a, c),
    decreases a.len(),
{
    if a.len() > 0 && b.len() > 0 && c.len() > 0 && a[0] == b[0] && b[0] == c[0] {
        lemma_lex_le_trans(a.drop_first(), b.drop_first(), c.drop_first());
    }
}

/// The time a status reports for a domain is one of its records' times and no record's
/// time comes after it.
pub proof fn law_latest_is_greatest(times: Seq<Seq<char>>)
    ensures
        latest(times) is None <==> times.len() == 0,
        latest(times) matches Some(m) ==> times.contains(m) && forall|k: int| 0 <= k < times.len() ==> lex_le(#[trigger] times[k], m),
    decreases times.len(),
{
    if times.len() > 0 {
        law_latest_is_greatest(times.drop_last());
        let m = latest(times).unwrap();
        match latest(times.drop_last()) {
            None => {
                assert(times[times.len() - 1] == times.last());
                assert forall|k: int| 0 <= k < times.len() implies lex_le(#[trigger] times[k], m) by {
                    lemma_lex_le_total(times[k], m);
                    if k == times.len() - 1 {
                        lemma_lex_le_total(m, m);
                    }
                }
            },
            Some(prev) => {
                let j = choose|j: int| 0 <= j < times.drop_last().len() && times.drop_last()[j] == prev;
                assert(times[j] == prev);
                assert(times[times.len() - 1] == times.last());
                assert forall|k: int| 0 <= k < times.len() implies lex_le(#[trigger] times[k], m) by {
                    if k < times.len() - 1 {
                        assert(times[k] == times.drop_last()[k]);
                        assert(lex_le(times.drop_last()[k], prev));
                        if lex_le(prev, times.last()) {
                            lemma_lex_le_trans(times[k], prev, times.last());
                        }
                    } else {
                        lemma_lex_le_total(prev, times.last());
                        lemma_lex_le_total(m, m);
                    }
                }
            },
        }
    }
}

proof fn lemma_type_names_distinct()
    ensures
        "convention"@ != "pattern"@, "convention"@ != "failure"@, "convention"@ != "decision"@,
        "convention"@ != "reference"@, "convention"@ != "guide"@,
        "pattern"@ != "failure"@, "pattern"@ != "decision"@, "pattern"@ != "reference"@, "pattern"@ != "guide"@,
        "failure"@ != "decision"@, "failure"@ != "reference"@, "failure"@ != "guide"@,
        "decision"@ != "reference"@, "decision"@ != "guide"@,
        "reference"@ != "guide"@,
{
    reveal_strlit("convention");
    reveal_strlit("pattern");
    reveal_strlit("failure");
    reveal_strlit("decision");
    reveal_strlit("reference");
    reveal_strlit("guide");
    assert("convention"@[0] == 'c');
    assert("pattern"@[0] == 'p');
    assert("failure"@[0] == 'f');
    assert("decision"@[0] == 'd');
    assert("reference"@[0] == 'r');
    assert("guide"@[0] == 'g');
}

proof fn lemma_field_names_distinct()
    ensures
        "content"@ != "name"@, "content"@ != "description"@, "content"@ != "resolution"@,
        "content"@ != "title"@, "content"@ != "rationale"@,
        "name"@ != "description"@, "name"@ != "resolution"@, "name"@ != "title"@, "name"@ != "rationale"@,
        "description"@ != "resolution"@, "description"@ != "title"@, "description"@ != "rationale"@,
        "resolution"@ != "title"@, "resolution"@ != "rationale"@,
        "title"@ != "rationale"@,
{
    reveal_strlit("content");
    reveal_strlit("name");
    reveal_strlit("description");
    reveal_strlit("resolution");
    reveal_strlit("title");
    reveal_strlit("rationale");
    assert("content"@.len() == 7);
    assert("name"@.len() == 4);
    assert("description"@.len() == 11);
    assert("resolution"@.len() == 10);
    assert("title"@.len() == 5);
    assert("rationale"@.len() == 9);
}

/// Each record type is read back from its own lower-case name, and only from it.
pub proof fn law_parse_record_type_names(t: RecordType, s: Seq<char>)
    ensures
        spec_parse_record_type(record_type_name(t)) == Some(t),
        spec_parse_record_type(s) == Some(t) ==> s == record_type_name(t),
{
    lemma_type_names_distinct();
}

/// The records of type `t` are exactly those of `records` whose type is `t`.
pub proof fn law_of_type_exact(records: Seq<RecordView>, t: RecordType, x: RecordView)
    ensures
        of_type(records, t).contains(x) <==> (records.contains(x) && x.record_type() == t),
    decreases records.len(),
{
    if records.len() > 0 {
        let init = records.drop_last();
        law_of_type_exact(init, t, x);
        assert(records =~= init.push(records.last()));
        if records.contains(x) && x.record_type() == t && x != records.last() {
            let k = choose|k: int| 0 <= k < records.len() && records[k] == x;
            assert(init[k] == x);
        }
        if init.contains(x) {
            let k = choose|k: int| 0 <= k < init.len() && init[k] == x;
            assert(records[k] == x);
        }
        let rest = of_type(init, t);
        if records.last().record_type() == t {
            assert(of_type(records, t) == rest.push(records.last()));
            if rest.push(records.last()).contains(x) && x != records.last() {
                let k = choose|k: int| 0 <= k < rest.len() + 1 && rest.push(records.last())[k] == x;
                assert(rest[k] == x);
            }
            if rest.contains(x) {
                let k = choose|k: int| 0 <= k < rest.len() && rest[k] == x;
                assert(rest.push(records.last())[k] == x);
            }
            assert(rest.push(records.last())[rest.len() as int] == records.last());
        }
        assert(records[records.len() - 1] == records.last());
    }
}

/// A type-filtered query or search given a type's lower-case name keeps exactly the
/// records of that type.
pub proof fn law_type_filter_by_name(t: RecordType, records: Seq<RecordView>, x: RecordView)
    ensures
        spec_type_filter(Some(record_type_name(t))) == Ok::<Option<RecordType>, Seq<char>>(Some(t)),
        spec_type_filter(None) == Ok::<Option<RecordType>, Seq<char>>(None),
        of_type(records, t).contains(x) <==> (records.contains(x) && x.record_type() == t),
{
    law_parse_record_type_names(t, record_type_name(t));
    law_of_type_exact(records, t, x);
}

/// An update of a field the record's kind has sets that field to the value and leaves
/// every other text field as it was; an update of a field the kind lacks changes
/// nothing.
pub proof fn law_update_sets_field(r: RecordView, key: Seq<char>, value: Seq<char>, other: Seq<char>)
    ensures
        r.text_field(key) is Some ==> spec_apply_update(r, key, value).text_field(key) == Some(value),
        other != key ==> spec_apply_update(r, key, value).text_field(other) == r.text_field(other),
        r.text_field(key) is None ==> spec_apply_update(r, key, value) == r,
        spec_apply_update(r, key, value).record_type() == r.record_type(),
{
    lemma_field_names_distinct();
}

proof fn lemma_text_field_by_kind(a: RecordView, b: RecordView, key: Seq<char>)
    requires
        a.record_type() == b.record_type(),
    ensures
        a.text_field(key) is Some <==> b.text_field(key) is Some,
{
}

/// After an edit whose fields are distinct, each field updated that the record's kind
/// has holds the value given for it.
pub proof fn law_edit_sets_each_field(r: RecordView, updates: Seq<(Seq<char>, Seq<char>)>, i: int)
    requires
        distinct_fields(updates),
        0 <= i < updates.len(),
        r.text_field(updates[i].0) is Some,
    ensures
        spec_apply_updates(r, updates).text_field(updates[i].0) == Some(updates[i].1),
    decreases updates.len(),
{
    let init = updates.drop_last();
    let before = spec_apply_updates(r, init);
    law_edit_keeps_identity(r, init);
    lemma_text_field_by_kind(r, before, updates[i].0);
    let last = updates.last();
    law_update_sets_field(before, last.0, last.1, updates[i].0);
    if i < updates.len() - 1 {
        assert(init[i] == updates[i]);
        assert(distinct_fields(init));
        law_edit_sets_each_field(r, init, i);
        assert(updates[i].0 != updates[updates.len() - 1].0);
    }
}

/// What the record tool builds: a record of the type it names, recorded now with its
/// tags and nothing else set; its content, or its description, is the tool's
/// description; its name, title and rationale are the tool's; a failure's resolution
/// is the tool's rationale when one is given and `unresolved` only when none is. The
/// build succeeds exactly when the type is known and the fields its kind needs (a name,
/// or a decision's title and rationale) are given.
pub proof fn law_build_record_fields(tool: KbRecordTool, recorded_at: Seq<char>)
    ensures
        (spec_build_record(tool, recorded_at) is Ok) <==> (spec_parse_record_type(tool.record_type@) matches Some(t)
            && ((t == RecordType::Pattern || t == RecordType::Reference || t == RecordType::Guide) ==> tool.name is Some)
            && (t == RecordType::Decision ==> tool.title is Some && tool.rationale is Some)),
        spec_build_record(tool, recorded_at) matches Ok(r) ==> {
            &&& record_type_name(r.record_type()) == tool.record_type@
            &&& r.common() == new_common(recorded_at, opt_strings_view(tool.tags))
            &&& (r.text_field("content"@) matches Some(c) ==> c == tool.description@)
            &&& (r.text_field("description"@) matches Some(d) ==> d == tool.description@)
            &&& (r.text_field("name"@) matches Some(n) ==> opt_view(tool.name) == Some(n))
            &&& (r.text_field("title"@) matches Some(x) ==> opt_view(tool.title) == Some(x))
            &&& (r.text_field("rationale"@) matches Some(x) ==> opt_view(tool.rationale) == Some(x))
            &&& (r.text_field("resolution"@) matches Some(x) ==> x == (match opt_view(tool.rationale) {
                Some(given) => given,
                None => "unresolved"@,
            }))
        },
{
    lemma_type_names_distinct();
    lemma_field_names_distinct();
}

} // verus!
