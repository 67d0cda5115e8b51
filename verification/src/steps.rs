//! The tools' calls as steps: each takes what the file system gave (the configuration,
//! the records read, the position of a duplicate or of the record named, match counts)
//! and says what to write and what to log, or why the call is refused. A refused call
//! writes and logs nothing; log entries come only with a step that has something written.

use vstd::prelude::*;
use crate::types::{
    ExpertiseRecord, RecordView, KbConfig, KbError, KbErrorView, opt_view, opt_str_view,
    strings_view, opt_strings_view,
};
use crate::config::{domain_name_valid, available_domains, ensure_kb_dir, ensure_domain_exists, validate_domain_name};
use crate::check::{spec_domains_to_check, records_view};
use crate::session::Timestamp;
use crate::access_log::{AccessLogEntry, AccessLogEntryView};
use crate::changelog::{ChangelogEntry, ChangelogEntryView};
use crate::tools::{
    KbRecordTool, KbEditTool, KbDeleteTool, KbPrimeTool, KbSearchTool, KbQueryTool,
    spec_build_record, spec_apply_updates, updates_view, distinct_fields, spec_is_named_type_of,
    spec_mutation_entries, spec_logged_id, delete_at,
    spec_prime_domains, spec_type_filter, of_type, sum_counts, total_count, records_of_type,
    type_filter, access_entry, spec_access_entry, change_entry,
};

verus! {

/// The checks every tool that works on one domain's file makes first, in this order:
/// the knowledge base directory exists, the configuration lists the domain, and the
/// domain's name is valid.
pub open spec fn spec_prepare(kb_dir_is_dir: bool, configured: Seq<Seq<char>>, domain: Seq<char>) -> Result<(), KbErrorView> {
    if !kb_dir_is_dir {
        Err(KbErrorView::NotInitialized)
    } else if !configured.contains(domain) {
        Err(KbErrorView::DomainNotFound { domain, available: available_domains(configured) })
    } else if !domain_name_valid(domain) {
        Err(KbErrorView::InvalidDomainName(domain))
    } else {
        Ok(())
    }
}

/// Makes the checks of `spec_prepare`.
pub fn prepare(kb_dir_is_dir: bool, config: &KbConfig, domain: &str) -> (res: Result<(), KbError>)
    ensures
        match res {
            Ok(()) => spec_prepare(kb_dir_is_dir, strings_view(config.domains), domain@) == Ok::<(), KbErrorView>(()),
            Err(e) => spec_prepare(kb_dir_is_dir, strings_view(config.domains), domain@) == Err::<(), KbErrorView>(e@),
        },
{
    ensure_kb_dir(kb_dir_is_dir)?;
    ensure_domain_exists(config, domain)?;
    validate_domain_name(domain)?;
    Ok(())
}

/// Why a tool call is refused: an error of the knowledge base, or a message of the tool.
pub enum ToolFailure {
    Kb(KbError),
    Refused(String),
}

pub enum ToolFailureView {
    Kb(KbErrorView),
    Refused(Seq<char>),
}

impl View for ToolFailure {
    type V = ToolFailureView;

    open spec fn view(&self) -> ToolFailureView {
        match self {
            ToolFailure::Kb(e) => ToolFailureView::Kb(e@),
            ToolFailure::Refused(m) => ToolFailureView::Refused(m@),
        }
    }
}

/// The record a record call stores, or why it is refused, in this order: the knowledge
/// base directory, the domain listed, the record's fields, the domain's name.
pub open spec fn spec_record_plan(tool: KbRecordTool, kb_dir_is_dir: bool, configured: Seq<Seq<char>>, recorded_at: Seq<char>) -> Result<RecordView, ToolFailureView> {
    if !kb_dir_is_dir {
        Err(ToolFailureView::Kb(KbErrorView::NotInitialized))
    } else if !configured.contains(tool.domain@) {
        Err(ToolFailureView::Kb(KbErrorView::DomainNotFound { domain: tool.domain@, available: available_domains(configured) }))
    } else {
        match spec_build_record(tool, recorded_at) {
            Err(m) => Err(ToolFailureView::Refused(m)),
            Ok(r) => if !domain_name_valid(tool.domain@) {
                Err(ToolFailureView::Kb(KbErrorView::InvalidDomainName(tool.domain@)))
            } else {
                Ok(r)
            },
        }
    }
}

/// What a record call does with the domain's records.
pub enum RecordStep {
    /// Append this record to the file.
    Append(ExpertiseRecord),
    /// Write these records back in place of the file's.
    Write(Vec<ExpertiseRecord>),
    /// Leave the file as it is.
    Keep,
}

impl KbRecordTool {
    /// The record this call stores (see `spec_record_plan`).
    pub fn plan(&self, kb_dir_is_dir: bool, config: &KbConfig, recorded_at: String) -> (res: Result<ExpertiseRecord, ToolFailure>)
        ensures
            match res {
                Ok(r) => spec_record_plan(*self, kb_dir_is_dir, strings_view(config.domains), recorded_at@) == Ok::<RecordView, ToolFailureView>(r@),
                Err(f) => spec_record_plan(*self, kb_dir_is_dir, strings_view(config.domains), recorded_at@) == Err::<RecordView, ToolFailureView>(f@),
            },
    {
        if let Err(e) = ensure_kb_dir(kb_dir_is_dir) {
            return Err(ToolFailure::Kb(e));
        }
        if let Err(e) = ensure_domain_exists(config, self.domain.as_str()) {
            return Err(ToolFailure::Kb(e));
        }
        let record = match self.build_record(recorded_at) {
            Ok(r) => r,
            Err(m) => {
                return Err(ToolFailure::Refused(m));
            },
        };
        if let Err(e) = validate_domain_name(self.domain.as_str()) {
            return Err(ToolFailure::Kb(e));
        }
        Ok(record)
    }

    /// What storing `record` does with the domain's `existing` records, given the
    /// position of its duplicate, if any: a named record (pattern, decision, reference,
    /// guide) replaces its duplicate, another kind leaves the file as it is, and a record
    /// without duplicate is appended.
    pub fn store(&self, existing: Vec<ExpertiseRecord>, record: ExpertiseRecord, duplicate: Option<usize>) -> (res: RecordStep)
        requires
            duplicate matches Some(i) ==> i < existing@.len(),
        ensures
            match duplicate {
                None => res matches RecordStep::Append(r) && r@ == record@,
                Some(i) => if spec_is_named_type_of(record@) {
                    res matches RecordStep::Write(v) && records_view(v) == records_view(existing).update(i as int, record@)
                } else {
                    res is Keep
                },
            },
    {
        match duplicate {
            None => RecordStep::Append(record),
            Some(i) => {
                if record.record_type().is_named() {
                    let ghost rv = record@;
                    let ghost before = existing@;
                    let mut records = existing;
                    records.set(i, record);
                    assert(records_view(records) =~= records_view_of(before).update(i as int, rv));
                    RecordStep::Write(records)
                } else {
                    RecordStep::Keep
                }
            },
        }
    }
}

spec fn records_view_of(s: Seq<ExpertiseRecord>) -> Seq<RecordView> {
    s.map_values(|r: ExpertiseRecord| r@)
}

impl KbEditTool {
    /// The domain's records after this edit of the record at `idx`: that record with the
    /// updates applied, the others unchanged.
    pub fn edit(&self, records: Vec<ExpertiseRecord>, idx: usize) -> (res: Vec<ExpertiseRecord>)
        requires
            idx < records@.len(),
            distinct_fields(updates_view(self.updates)),
        ensures
            records_view(res) == records_view(records).update(idx as int, spec_apply_updates(records_view(records)[idx as int], updates_view(self.updates))),
    {
        let ghost before = records@;
        let mut records = records;
        let mut record = records.remove(idx);
        assert(record@ == records_view_of(before)[idx as int]);
        self.apply_updates(&mut record);
        let ghost rv = record@;
        records.insert(idx, record);
        assert(records_view(records) =~= records_view_of(before).update(idx as int, rv));
        records
    }

    /// The log entries of this edit: an access entry (within a session only) and a
    /// changelog entry with the fields changed, both under the action `edit` and the id
    /// as it was asked for.
    pub fn log_entries(&self, session_id: Option<&str>, timestamp: Timestamp) -> (res: (Option<AccessLogEntry>, ChangelogEntry))
        requires
            distinct_fields(updates_view(self.updates)),
        ensures
            (match res.0 {
                Some(e) => spec_access_entry(opt_str_view(session_id), timestamp, "edit"@, Some(self.domain@), None, Some(self.entry_id@), None) == Some(e@),
                None => spec_access_entry(opt_str_view(session_id), timestamp, "edit"@, Some(self.domain@), None, Some(self.entry_id@), None) is None,
            }),
            res.1@ == (ChangelogEntryView {
                session_id: opt_str_view(session_id),
                timestamp,
                action: "edit"@,
                domain: self.domain@,
                entry_id: self.entry_id@,
                summary: None,
                diff: Some(updates_view(self.updates).map_values(|p: (Seq<char>, Seq<char>)| (p.0, "..."@, p.1))),
            }),
    {
        let access = access_entry(session_id, timestamp, "edit", Some(self.domain.as_str()), None, Some(self.entry_id.as_str()), None);
        let diff = self.diff();
        let change = change_entry(session_id, timestamp, "edit", self.domain.as_str(), self.entry_id.as_str(), None, Some(diff));
        (access, change)
    }
}

/// What a deletion does: the records to write back, and its two log entries.
pub struct DeleteStep {
    pub records: Vec<ExpertiseRecord>,
    pub access: Option<AccessLogEntry>,
    pub change: ChangelogEntry,
}

impl KbDeleteTool {
    /// Deletes the record at `idx` from the domain's records, whose summary is `summary`,
    /// and logs the removal under the removed record's id (or `unknown`).
    pub fn delete(
        &self,
        records: Vec<ExpertiseRecord>,
        idx: usize,
        session_id: Option<&str>,
        timestamp: Timestamp,
        summary: &str,
    ) -> (res: DeleteStep)
        requires
            idx < records@.len(),
        ensures
            records_view(res.records) == records_view(records).remove(idx as int),
            ({
                let (a, c) = spec_mutation_entries(opt_str_view(session_id), timestamp, "delete"@, self.domain@,
                    spec_logged_id(records_view(records)[idx as int]), summary@);
                &&& (match res.access {
                    Some(e) => a == Some(e@),
                    None => a is None,
                })
                &&& c == res.change@
            }),
    {
        let mut records = records;
        let removed = delete_at(&mut records, idx);
        let (access, change) = self.log_entries(session_id, timestamp, &removed, summary);
        DeleteStep { records, access, change }
    }
}

impl KbPrimeTool {
    /// The domains a prime reads, in order: nothing without the knowledge base directory,
    /// else those of `spec_prime_domains`. Each name is validated as its file is read.
    pub fn plan(&self, kb_dir_is_dir: bool, config: &KbConfig) -> (res: Result<Vec<String>, KbError>)
        ensures
            match res {
                Ok(v) => kb_dir_is_dir && spec_prime_domains(opt_strings_view(self.domains), strings_view(config.domains)) == Ok::<Seq<Seq<char>>, KbErrorView>(strings_view(v)),
                Err(e) => if !kb_dir_is_dir {
                    e@ == KbErrorView::NotInitialized
                } else {
                    spec_prime_domains(opt_strings_view(self.domains), strings_view(config.domains)) == Err::<Seq<Seq<char>>, KbErrorView>(e@)
                },
            },
    {
        ensure_kb_dir(kb_dir_is_dir)?;
        self.target_domains(config)
    }

    /// The access entry of a prime in the session it started: the tool `prime` and the
    /// number of records primed over all domains.
    pub fn access_entry(&self, session_id: &str, timestamp: Timestamp, counts: &Vec<usize>) -> (res: AccessLogEntry)
        requires
            sum_counts(counts@) <= usize::MAX,
        ensures
            res@ == (AccessLogEntryView {
                session_id: session_id@,
                timestamp,
                tool: "prime"@,
                domain: None,
                query: None,
                entry_id: None,
                result_count: Some(sum_counts(counts@) as usize),
                signal: None,
            }),
    {
        let total = total_count(counts);
        AccessLogEntry {
            session_id: session_id.to_owned(),
            timestamp,
            tool: "prime".to_owned(),
            domain: None,
            query: None,
            entry_id: None,
            result_count: Some(total),
            signal: None,
        }
    }
}

/// The records of one domain a type-filtered call keeps: all of them without a type,
/// those of the type named, or the message for an unknown type.
pub open spec fn spec_select_type(rt: Option<Seq<char>>, records: Seq<RecordView>) -> Result<Seq<RecordView>, Seq<char>> {
    match spec_type_filter(rt) {
        Err(m) => Err(m),
        Ok(None) => Ok(records),
        Ok(Some(t)) => Ok(of_type(records, t)),
    }
}

/// Keeps the records of one domain that a type filter lets through (see `spec_select_type`).
pub fn select_type(rt: &Option<String>, records: Vec<ExpertiseRecord>) -> (res: Result<Vec<ExpertiseRecord>, String>)
    ensures
        match res {
            Ok(v) => spec_select_type(opt_view(*rt), records_view(records)) == Ok::<Seq<RecordView>, Seq<char>>(records_view(v)),
            Err(m) => spec_select_type(opt_view(*rt), records_view(records)) == Err::<Seq<RecordView>, Seq<char>>(m@),
        },
{
    match type_filter(rt)? {
        None => Ok(records),
        Some(t) => Ok(records_of_type(records, t)),
    }
}

impl KbSearchTool {
    /// The domains a search reads, in order: nothing without the knowledge base
    /// directory, else those of `spec_domains_to_check`. Each name is validated, and the
    /// record type checked, as its domain's file is read (see `records_to_search`).
    pub fn plan(&self, kb_dir_is_dir: bool, config: &KbConfig) -> (res: Result<Vec<String>, KbError>)
        ensures
            match res {
                Ok(v) => kb_dir_is_dir && spec_domains_to_check(strings_view(config.domains), opt_view(self.domain)) == Ok::<Seq<Seq<char>>, KbErrorView>(strings_view(v)),
                Err(e) => if !kb_dir_is_dir {
                    e@ == KbErrorView::NotInitialized
                } else {
                    spec_domains_to_check(strings_view(config.domains), opt_view(self.domain)) == Err::<Seq<Seq<char>>, KbErrorView>(e@)
                },
            },
    {
        ensure_kb_dir(kb_dir_is_dir)?;
        self.target_domains(config)
    }

    /// The records of one domain, just read, that this search looks through; an unknown
    /// record type is refused here, once the first domain's file has been read.
    pub fn records_to_search(&self, records: Vec<ExpertiseRecord>) -> (res: Result<Vec<ExpertiseRecord>, String>)
        ensures
            match res {
                Ok(v) => spec_select_type(opt_view(self.record_type), records_view(records)) == Ok::<Seq<RecordView>, Seq<char>>(records_view(v)),
                Err(m) => spec_select_type(opt_view(self.record_type), records_view(records)) == Err::<Seq<RecordView>, Seq<char>>(m@),
            },
    {
        select_type(&self.record_type, records)
    }

    /// The access entry of this search (within a session only): the tool `search`, the
    /// domain asked for, the query, and the total of the domains' match counts.
    pub fn access_entry(&self, session_id: Option<&str>, timestamp: Timestamp, counts: &Vec<usize>) -> (res: Option<AccessLogEntry>)
        requires
            sum_counts(counts@) <= usize::MAX,
        ensures
            match res {
                Some(e) => spec_access_entry(opt_str_view(session_id), timestamp, "search"@, opt_view(self.domain), Some(self.query@), None, Some(sum_counts(counts@) as usize)) == Some(e@),
                None => session_id is None,
            },
    {
        let total = total_count(counts);
        let domain: Option<&str> = match &self.domain {
            Some(d) => Some(d.as_str()),
            None => None,
        };
        access_entry(session_id, timestamp, "search", domain, Some(self.query.as_str()), None, Some(total))
    }
}

impl KbQueryTool {
    /// The records of the domain, just read, that this query returns; an unknown record
    /// type is refused once the file has been read.
    pub fn records_to_return(&self, records: Vec<ExpertiseRecord>) -> (res: Result<Vec<ExpertiseRecord>, String>)
        ensures
            match res {
                Ok(v) => spec_select_type(opt_view(self.record_type), records_view(records)) == Ok::<Seq<RecordView>, Seq<char>>(records_view(v)),
                Err(m) => spec_select_type(opt_view(self.record_type), records_view(records)) == Err::<Seq<RecordView>, Seq<char>>(m@),
            },
    {
        select_type(&self.record_type, records)
    }
}


/// A record call stores something only when every shared check passes; and when a
/// shared check other than the name's fails, the call is refused with that error
/// before the record's fields are looked at.
pub proof fn law_record_checks_first(tool: KbRecordTool, kb_dir_is_dir: bool, configured: Seq<Seq<char>>, recorded_at: Seq<char>)
    ensures
        spec_record_plan(tool, kb_dir_is_dir, configured, recorded_at) is Ok
            ==> spec_prepare(kb_dir_is_dir, configured, tool.domain@) == Ok::<(), KbErrorView>(()),
        forall|e: KbErrorView| spec_prepare(kb_dir_is_dir, configured, tool.domain@) == Err::<(), KbErrorView>(e) && !(e is InvalidDomainName)
            ==> #[trigger] spec_record_plan(tool, kb_dir_is_dir, configured, recorded_at) == Err::<RecordView, ToolFailureView>(ToolFailureView::Kb(e)),
{
}

/// Storing a record never loses another record: appending adds one, replacing keeps the
/// count and every other position, keeping changes nothing.
pub proof fn law_store_keeps_others(existing: Seq<RecordView>, record: RecordView, i: int, j: int)
    requires
        0 <= i < existing.len(),
        0 <= j < existing.len(),
        i != j,
    ensures
        existing.update(i, record).len() == existing.len(),
        existing.update(i, record)[j] == existing[j],
        existing.update(i, record)[i] == record,
{
}

} // verus!
