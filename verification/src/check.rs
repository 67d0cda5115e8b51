//! Checking the file references that records make against the working tree.
//!
//! A record's text is scanned for path-like words; those that hold no glob character are
//! looked up among the paths that exist, and each record with a missing one is reported.

use vstd::prelude::*;
use vstd::utf8::{encode_utf8, decode_utf8, is_char_boundary};
use crate::text::{
    seq_contains_seq, seq_starts_with, seq_join, contains_str, starts_with_str, contains_char,
    join_strings, contains_string,
};
use crate::types::{
    ExpertiseRecord, RecordView, KbConfig, KbError, KbErrorView, strings_view, opt_view, opt_str_view,
};
use crate::pattern::{regex_first_groups, regex_first_group_captures};
use crate::config::{domain_name_valid, validate_domain_name, ensure_domain_exists, available_domains};

verus! {

/// The expression whose first group is a path-like word: it starts with a letter, digit,
/// `_`, `.` or `*`, continues with word characters, `.`, `*`, `/` and `-`, ends in a
/// dot and an extension, and stands between spaces, quotes, brackets or the text's ends.
pub const PATH_REFERENCE_PATTERN: &'static str =
    r#"(?:^|[\s`"',(])([a-zA-Z0-9_.*][\w.*/-]*\.[a-zA-Z0-9]+)(?:[\s`"',):]|$)"#;

/// A record whose text refers to paths that do not exist.
pub struct CheckResult {
    pub domain: String,
    pub entry_id: String,
    pub entry_summary: String,
    pub broken_refs: Vec<String>,
}

pub struct CheckResultView {
    pub domain: Seq<char>,
    pub entry_id: Seq<char>,
    pub entry_summary: Seq<char>,
    pub broken_refs: Seq<Seq<char>>,
}

impl View for CheckResult {
    type V = CheckResultView;

    open spec fn view(&self) -> CheckResultView {
        CheckResultView {
            domain: self.domain@,
            entry_id: self.entry_id@,
            entry_summary: self.entry_summary@,
            broken_refs: strings_view(self.broken_refs),
        }
    }
}

/// What reading one domain's expertise file gave.
pub struct DomainRecords {
    pub domain: String,
    pub records: Result<Vec<ExpertiseRecord>, KbError>,
}

pub open spec fn records_view(v: Vec<ExpertiseRecord>) -> Seq<RecordView> {
    v@.map_values(|r: ExpertiseRecord| r@)
}

pub open spec fn read_view(r: Result<Vec<ExpertiseRecord>, KbError>) -> Result<Seq<RecordView>, KbErrorView> {
    match r {
        Ok(v) => Ok(records_view(v)),
        Err(e) => Err(e@),
    }
}

pub open spec fn files_view(files: Vec<DomainRecords>) -> Seq<(Seq<char>, Result<Seq<RecordView>, KbErrorView>)> {
    files@.map_values(|f: DomainRecords| (f.domain@, read_view(f.records)))
}

pub open spec fn results_view(v: Vec<CheckResult>) -> Seq<CheckResultView> {
    v@.map_values(|r: CheckResult| r@)
}

/// Whether a path-like word counts as a file reference: it is no URL, does not start
/// like a version number (`0.` or `1.`), and holds a `/` or a `*`.
pub open spec fn is_path_ref(p: Seq<char>) -> bool {
    &&& !seq_contains_seq(p, "://"@)
    &&& !seq_starts_with(p, "0."@)
    &&& !seq_starts_with(p, "1."@)
    &&& (p.contains('/') || p.contains('*'))
}

/// The file references among the first groups of successive matches, in order.
pub open spec fn path_refs_in(groups: Seq<Option<Seq<char>>>) -> Seq<Seq<char>>
    decreases groups.len(),
{
    if groups.len() == 0 {
        seq![]
    } else {
        let rest = path_refs_in(groups.drop_last());
        match groups.last() {
            Some(p) => if is_path_ref(p) { rest.push(p) } else { rest },
            None => rest,
        }
    }
}

/// The file references in `text`. The pattern is a fixed expression that the regex
/// crate accepts; were it refused, no reference would be found.
pub open spec fn spec_extract_paths(text: Seq<char>) -> Seq<Seq<char>> {
    match regex_first_groups(PATH_REFERENCE_PATTERN@, text) {
        Some(groups) => path_refs_in(groups),
        None => seq![],
    }
}

/// Keeps the file references among the first groups of successive matches.
pub fn select_path_refs(groups: &Vec<Option<String>>) -> (res: Vec<String>)
    ensures
        strings_view(res) == path_refs_in(groups@.map_values(|o: Option<String>| opt_view(o))),
{
    let ghost views = groups@.map_values(|o: Option<String>| opt_view(o));
    let mut res: Vec<String> = Vec::new();
    let mut i: usize = 0;
    while i < groups.len()
        invariant
            views == groups@.map_values(|o: Option<String>| opt_view(o)),
            i <= groups@.len(),
            strings_view(res) == path_refs_in(views.take(i as int)),
        decreases groups@.len() - i,
    {
        assert(views.take(i + 1).drop_last() =~= views.take(i as int));
        match &groups[i] {
            Some(p) => {
                let keep = !contains_str(p.as_str(), "://")
                    && !starts_with_str(p.as_str(), "0.")
                    && !starts_with_str(p.as_str(), "1.")
                    && (contains_char(p.as_str(), '/') || contains_char(p.as_str(), '*'));
                if keep {
                    let ghost before = res@;
                    res.push(p.clone());
                    assert(strings_view(res) =~= strings_view_of(before).push(p@));
                }
            },
            None => {},
        }
        i = i + 1;
    }
    assert(views.take(groups@.len() as int) =~= views);
    res
}

spec fn strings_view_of(s: Seq<String>) -> Seq<Seq<char>> {
    s.map_values(|x: String| x@)
}

/// Extracts the file references that `text` makes, in order of appearance.
pub fn extract_paths(text: &str) -> (res: Vec<String>)
    ensures
        strings_view(res) == spec_extract_paths(text@),
{
    match regex_first_group_captures(PATH_REFERENCE_PATTERN, text) {
        Some(groups) => select_path_refs(&groups),
        None => {
            let res: Vec<String> = Vec::new();
            assert(strings_view(res) =~= seq![]);
            res
        },
    }
}


/// The optional file list of a record, as a plain list.
pub open spec fn files_or_empty(files: Option<Seq<Seq<char>>>) -> Seq<Seq<char>> {
    match files {
        Some(f) => f,
        None => seq![],
    }
}

/// The pieces of a record's searchable text: its text fields in order, its file list,
/// and the file of its evidence.
pub open spec fn record_text_parts(r: RecordView) -> Seq<Seq<char>> {
    let base = match r {
        RecordView::Convention { content, .. } => seq![content],
        RecordView::Pattern { name, description, files, .. } => seq![name, description] + files_or_empty(files),
        RecordView::Failure { description, resolution, .. } => seq![description, resolution],
        RecordView::Decision { title, rationale, .. } => seq![title, rationale],
        RecordView::Reference { name, description, files, .. } => seq![name, description] + files_or_empty(files),
        RecordView::Guide { name, description, .. } => seq![name, description],
    };
    match r.common().evidence {
        Some(ev) => match ev.file {
            Some(f) => base.push(f),
            None => base,
        },
        None => base,
    }
}

/// A record's searchable text: its pieces separated by spaces.
pub open spec fn spec_record_text(r: RecordView) -> Seq<char> {
    seq_join(record_text_parts(r), " "@)
}

/// Appends copies of `more` to `parts`.
fn push_all(parts: &mut Vec<String>, more: &Vec<String>)
    ensures
        strings_view(*final(parts)) == strings_view(*old(parts)) + strings_view(*more),
{
    let mut i: usize = 0;
    while i < more.len()
        invariant
            i <= more@.len(),
            strings_view(*parts) == strings_view(*old(parts)) + strings_view(*more).take(i as int),
        decreases more@.len() - i,
    {
        let ghost before = parts@;
        parts.push(more[i].clone());
        assert(strings_view(*parts) =~= strings_view_of(before).push(more@[i as int]@));
        assert(strings_view(*more).take(i + 1) =~= strings_view(*more).take(i as int).push(more@[i as int]@));
        i = i + 1;
    }
    assert(strings_view(*more).take(more@.len() as int) =~= strings_view(*more));
}

/// Appends a copy of `s` to `parts`.
fn push_copy(parts: &mut Vec<String>, s: &String)
    ensures
        strings_view(*final(parts)) == strings_view(*old(parts)).push(s@),
{
    let ghost before = parts@;
    parts.push(s.clone());
    assert(strings_view(*parts) =~= strings_view_of(before).push(s@));
}

/// Gathers all searchable text of a record into one string.
pub fn record_text(record: &ExpertiseRecord) -> (res: String)
    ensures
        res@ == spec_record_text(record@),
{
    let mut parts: Vec<String> = Vec::new();
    assert(strings_view(parts) =~= seq![]);
    match record {
        ExpertiseRecord::Convention { content, .. } => {
            push_copy(&mut parts, content);
        },
        ExpertiseRecord::Pattern { name, description, files, .. } => {
            push_copy(&mut parts, name);
            push_copy(&mut parts, description);
            if let Some(f) = files {
                push_all(&mut parts, f);
            }
        },
        ExpertiseRecord::Failure { description, resolution, .. } => {
            push_copy(&mut parts, description);
            push_copy(&mut parts, resolution);
        },
        ExpertiseRecord::Decision { title, rationale, .. } => {
            push_copy(&mut parts, title);
            push_copy(&mut parts, rationale);
        },
        ExpertiseRecord::Reference { name, description, files, .. } => {
            push_copy(&mut parts, name);
            push_copy(&mut parts, description);
            if let Some(f) = files {
                push_all(&mut parts, f);
            }
        },
        ExpertiseRecord::Guide { name, description, .. } => {
            push_copy(&mut parts, name);
            push_copy(&mut parts, description);
        },
    }
    if let Some(ev) = record.evidence() {
        if let Some(file) = &ev.file {
            push_copy(&mut parts, file);
        }
    }
    assert(strings_view(parts) =~= record_text_parts(record@));
    join_strings(&parts, " ")
}

/// The field a record is summarised by: the content of a convention, the name of a
/// pattern, reference or guide, the description of a failure, the title of a decision.
pub open spec fn summary_source(r: RecordView) -> Seq<char> {
    match r {
        RecordView::Convention { content, .. } => content,
        RecordView::Pattern { name, .. } => name,
        RecordView::Failure { description, .. } => description,
        RecordView::Decision { title, .. } => title,
        RecordView::Reference { name, .. } => name,
        RecordView::Guide { name, .. } => name,
    }
}

/// Whether a summary can be cut from `text`: it is at most 80 bytes long in UTF-8, or
/// its 77th byte ends a character.
pub open spec fn summary_splittable(text: Seq<char>) -> bool {
    encode_utf8(text).len() <= 80 || is_char_boundary(encode_utf8(text), 77)
}

/// A summary of `text`: the text itself when it is at most 80 bytes long in UTF-8, else
/// its first 77 bytes followed by `...`.
pub open spec fn spec_summary_text(text: Seq<char>) -> Seq<char> {
    if encode_utf8(text).len() <= 80 {
        text
    } else {
        decode_utf8(encode_utf8(text).subrange(0, 77)) + "..."@
    }
}

/// The one-line summary of a record (see `spec_summary_text`).
pub fn record_summary(record: &ExpertiseRecord) -> (res: String)
    requires
        summary_splittable(summary_source(record@)),
    ensures
        res@ == spec_summary_text(summary_source(record@)),
{
    let text: &String = match record {
        ExpertiseRecord::Convention { content, .. } => content,
        ExpertiseRecord::Pattern { name, .. } => name,
        ExpertiseRecord::Failure { description, .. } => description,
        ExpertiseRecord::Decision { title, .. } => title,
        ExpertiseRecord::Reference { name, .. } => name,
        ExpertiseRecord::Guide { name, .. } => name,
    };
    let s = text.as_str();
    if s.as_bytes().len() > 80 {
        let (head, _) = s.split_at(77);
        proof {
            vstd::utf8::encode_utf8_decode_utf8(head@);
        }
        let mut res = head.to_owned();
        res.append("...");
        res
    } else {
        text.clone()
    }
}


/// The references among `refs` that hold no glob character `*`, in order.
pub open spec fn non_glob(refs: Seq<Seq<char>>) -> Seq<Seq<char>>
    decreases refs.len(),
{
    if refs.len() == 0 {
        seq![]
    } else {
        let rest = non_glob(refs.drop_last());
        if refs.last().contains('*') { rest } else { rest.push(refs.last()) }
    }
}

/// The references among `refs` that are not in `existing`, in order.
pub open spec fn missing_refs(refs: Seq<Seq<char>>, existing: Seq<Seq<char>>) -> Seq<Seq<char>>
    decreases refs.len(),
{
    if refs.len() == 0 {
        seq![]
    } else {
        let rest = missing_refs(refs.drop_last(), existing);
        if existing.contains(refs.last()) { rest } else { rest.push(refs.last()) }
    }
}

/// The literal paths a record refers to: the file references in its text that are no
/// glob patterns.
pub open spec fn spec_record_path_refs(r: RecordView) -> Seq<Seq<char>> {
    non_glob(spec_extract_paths(spec_record_text(r)))
}

/// The literal paths a record refers to, in order of appearance; these are the paths
/// whose existence decides whether the record's references are broken.
pub fn record_path_refs(record: &ExpertiseRecord) -> (res: Vec<String>)
    ensures
        strings_view(res) == spec_record_path_refs(record@),
{
    let text = record_text(record);
    let paths = extract_paths(text.as_str());
    let ghost views = strings_view(paths);
    let mut res: Vec<String> = Vec::new();
    let mut i: usize = 0;
    while i < paths.len()
        invariant
            views == strings_view(paths),
            i <= paths@.len(),
            strings_view(res) == non_glob(views.take(i as int)),
        decreases paths@.len() - i,
    {
        assert(views.take(i + 1).drop_last() =~= views.take(i as int));
        if !contains_char(paths[i].as_str(), '*') {
            let ghost before = res@;
            res.push(paths[i].clone());
            assert(strings_view(res) =~= strings_view_of(before).push(views[i as int]));
        }
        i = i + 1;
    }
    assert(views.take(paths@.len() as int) =~= views);
    res
}

/// The literal paths of a record that are not among `existing`.
pub open spec fn spec_broken_refs(r: RecordView, existing: Seq<Seq<char>>) -> Seq<Seq<char>> {
    missing_refs(spec_record_path_refs(r), existing)
}

/// The literal paths of a record that are not among the paths that exist.
pub fn broken_refs(record: &ExpertiseRecord, existing_paths: &Vec<String>) -> (res: Vec<String>)
    ensures
        strings_view(res) == spec_broken_refs(record@, strings_view(*existing_paths)),
{
    let refs = record_path_refs(record);
    let ghost views = strings_view(refs);
    let ghost existing = strings_view(*existing_paths);
    let mut res: Vec<String> = Vec::new();
    let mut i: usize = 0;
    while i < refs.len()
        invariant
            views == strings_view(refs),
            existing == strings_view(*existing_paths),
            i <= refs@.len(),
            strings_view(res) == missing_refs(views.take(i as int), existing),
        decreases refs@.len() - i,
    {
        assert(views.take(i + 1).drop_last() =~= views.take(i as int));
        if !contains_string(existing_paths, &refs[i]) {
            let ghost before = res@;
            res.push(refs[i].clone());
            assert(strings_view(res) =~= strings_view_of(before).push(views[i as int]));
        }
        i = i + 1;
    }
    assert(views.take(refs@.len() as int) =~= views);
    res
}

/// The identifier shown for a record: its id, or `(no id)`.
pub open spec fn shown_id(r: RecordView) -> Seq<char> {
    match r.common().id {
        Some(id) => id,
        None => "(no id)"@,
    }
}

/// The report for each record of `domain` with a broken reference, in order.
pub open spec fn record_results(domain: Seq<char>, records: Seq<RecordView>, existing: Seq<Seq<char>>) -> Seq<CheckResultView>
    decreases records.len(),
{
    if records.len() == 0 {
        seq![]
    } else {
        let rest = record_results(domain, records.drop_last(), existing);
        let r = records.last();
        let broken = spec_broken_refs(r, existing);
        if broken.len() == 0 {
            rest
        } else {
            rest.push(CheckResultView {
                domain,
                entry_id: shown_id(r),
                entry_summary: spec_summary_text(summary_source(r)),
                broken_refs: broken,
            })
        }
    }
}

/// The first entry of `files` for `domain`, if any.
pub open spec fn lookup_records(
    files: Seq<(Seq<char>, Result<Seq<RecordView>, KbErrorView>)>,
    domain: Seq<char>,
) -> Option<Result<Seq<RecordView>, KbErrorView>>
    decreases files.len(),
{
    if files.len() == 0 {
        None
    } else if files[0].0 == domain {
        Some(files[0].1)
    } else {
        lookup_records(files.drop_first(), domain)
    }
}

/// The reports for one domain: the domain name must be valid, its file must have been
/// read, and a domain without an entry in `files` has no records.
pub open spec fn domain_results(
    domain: Seq<char>,
    files: Seq<(Seq<char>, Result<Seq<RecordView>, KbErrorView>)>,
    existing: Seq<Seq<char>>,
) -> Result<Seq<CheckResultView>, KbErrorView> {
    if !domain_name_valid(domain) {
        Err(KbErrorView::InvalidDomainName(domain))
    } else {
        match lookup_records(files, domain) {
            None => Ok(seq![]),
            Some(Err(e)) => Err(e),
            Some(Ok(records)) => Ok(record_results(domain, records, existing)),
        }
    }
}

/// The reports for each domain in turn, or the first error met.
pub open spec fn domains_results(
    domains: Seq<Seq<char>>,
    files: Seq<(Seq<char>, Result<Seq<RecordView>, KbErrorView>)>,
    existing: Seq<Seq<char>>,
) -> Result<Seq<CheckResultView>, KbErrorView>
    decreases domains.len(),
{
    if domains.len() == 0 {
        Ok(seq![])
    } else {
        match domains_results(domains.drop_last(), files, existing) {
            Err(e) => Err(e),
            Ok(prev) => match domain_results(domains.last(), files, existing) {
                Err(e) => Err(e),
                Ok(more) => Ok(prev + more),
            },
        }
    }
}

/// The domains to check: the one asked for, which the configuration must list, or all
/// configured domains.
pub open spec fn spec_domains_to_check(configured: Seq<Seq<char>>, domain: Option<Seq<char>>) -> Result<Seq<Seq<char>>, KbErrorView> {
    match domain {
        Some(d) => if configured.contains(d) {
            Ok(seq![d])
        } else {
            Err(KbErrorView::DomainNotFound { domain: d, available: available_domains(configured) })
        },
        None => Ok(configured),
    }
}

/// The whole check: nothing without a knowledge base directory, then the domains to
/// check, then the reports for each.
pub open spec fn spec_check_references(
    kb_dir_is_dir: bool,
    configured: Seq<Seq<char>>,
    domain: Option<Seq<char>>,
    files: Seq<(Seq<char>, Result<Seq<RecordView>, KbErrorView>)>,
    existing: Seq<Seq<char>>,
) -> Result<Seq<CheckResultView>, KbErrorView> {
    if !kb_dir_is_dir {
        Err(KbErrorView::NotInitialized)
    } else {
        match spec_domains_to_check(configured, domain) {
            Err(e) => Err(e),
            Ok(domains) => domains_results(domains, files, existing),
        }
    }
}

/// Whether the summaries that reporting one domain cuts can all be cut: those of the
/// records with a broken reference, when the name is valid and its file was read.
pub open spec fn domain_summaries_cuttable(
    domain: Seq<char>,
    files: Seq<(Seq<char>, Result<Seq<RecordView>, KbErrorView>)>,
    existing: Seq<Seq<char>>,
) -> bool {
    domain_name_valid(domain) ==> match lookup_records(files, domain) {
        Some(Ok(records)) => forall|j: int| 0 <= j < records.len() && spec_broken_refs(records[j], existing).len() > 0
            ==> summary_splittable(summary_source(#[trigger] records[j])),
        _ => true,
    }
}

/// Whether the summaries cut while reporting `domains` in turn can all be cut: a domain
/// counts only when every domain before it was reported without error.
pub open spec fn domains_summaries_cuttable(
    domains: Seq<Seq<char>>,
    files: Seq<(Seq<char>, Result<Seq<RecordView>, KbErrorView>)>,
    existing: Seq<Seq<char>>,
) -> bool
    decreases domains.len(),
{
    domains.len() == 0 || {
        &&& domains_summaries_cuttable(domains.drop_last(), files, existing)
        &&& (domains_results(domains.drop_last(), files, existing) is Ok
            ==> domain_summaries_cuttable(domains.last(), files, existing))
    }
}

/// Whether every summary the whole check cuts can be cut: those of the records reported
/// before the first error, if any.
pub open spec fn reported_summaries_splittable(
    kb_dir_is_dir: bool,
    configured: Seq<Seq<char>>,
    domain: Option<Seq<char>>,
    files: Seq<(Seq<char>, Result<Seq<RecordView>, KbErrorView>)>,
    existing: Seq<Seq<char>>,
) -> bool {
    kb_dir_is_dir ==> match spec_domains_to_check(configured, domain) {
        Err(_) => true,
        Ok(domains) => domains_summaries_cuttable(domains, files, existing),
    }
}

/// Finds the first entry of `files` for `domain`.
fn find_domain_records<'a>(files: &'a Vec<DomainRecords>, domain: &String) -> (res: Option<&'a DomainRecords>)
    ensures
        match res {
            Some(f) => f.domain@ == domain@ && lookup_records(files_view(*files), domain@) == Some(read_view(f.records)),
            None => lookup_records(files_view(*files), domain@) is None,
        },
{
    let ghost fv = files_view(*files);
    assert(fv.skip(0) =~= fv);
    let mut i: usize = 0;
    while i < files.len()
        invariant
            fv == files_view(*files),
            i <= files@.len(),
            lookup_records(fv, domain@) == lookup_records(fv.skip(i as int), domain@),
        decreases files@.len() - i,
    {
        assert(fv.skip(i as int)[0] == fv[i as int]);
        assert(fv.skip(i as int).drop_first() =~= fv.skip(i + 1));
        if files[i].domain == *domain {
            return Some(&files[i]);
        }
        i = i + 1;
    }
    assert(fv.skip(i as int).len() == 0);
    None
}

/// Appends the reports for the records of one domain; gives `false`, and stops, at a
/// record with a broken reference whose summary cannot be cut.
fn check_records(
    domain: &String,
    records: &Vec<ExpertiseRecord>,
    existing_paths: &Vec<String>,
    results: &mut Vec<CheckResult>,
) -> (all_cut: bool)
    ensures
        all_cut == forall|j: int| 0 <= j < records@.len() && spec_broken_refs(records@[j]@, strings_view(*existing_paths)).len() > 0
            ==> summary_splittable(summary_source(#[trigger] records@[j]@)),
        all_cut ==> results_view(*final(results)) == results_view(*old(results)) + record_results(domain@, records_view(*records), strings_view(*existing_paths)),
{
    let ghost rv = records_view(*records);
    let ghost existing = strings_view(*existing_paths);
    let mut i: usize = 0;
    while i < records.len()
        invariant
            rv == records_view(*records),
            existing == strings_view(*existing_paths),
            i <= records@.len(),
            forall|j: int| 0 <= j < i && spec_broken_refs(records@[j]@, existing).len() > 0
                ==> summary_splittable(summary_source(#[trigger] records@[j]@)),
            results_view(*results) == results_view(*old(results)) + record_results(domain@, rv.take(i as int), existing),
        decreases records@.len() - i,
    {
        assert(rv.take(i + 1).drop_last() =~= rv.take(i as int));
        assert(rv.take(i + 1).last() == records@[i as int]@);
        let record = &records[i];
        let broken = broken_refs(record, existing_paths);
        if broken.len() > 0 {
            if !summary_can_be_cut(record) {
                return false;
            }
            let entry_id = match record.id() {
                Some(id) => id.clone(),
                None => {
                    proof {
                        reveal_strlit("(no id)");
                    }
                    "(no id)".to_owned()
                },
            };
            let entry_summary = record_summary(record);
            let ghost before = results@;
            let r = CheckResult { domain: domain.clone(), entry_id, entry_summary, broken_refs: broken };
            results.push(r);
            assert(results_view(*results) =~= results_view_of(before).push(r@));
        } else {
            assert(strings_view(broken).len() == 0);
        }
        i = i + 1;
    }
    assert(rv.take(records@.len() as int) =~= rv);
    true
}

spec fn results_view_of(s: Seq<CheckResult>) -> Seq<CheckResultView> {
    s.map_values(|r: CheckResult| r@)
}

/// Checks the file references of the records of one domain, or of all configured
/// domains, against the paths that exist.
///
/// `kb_dir_is_dir` tells whether the knowledge base directory exists, `files` holds what
/// reading each domain's expertise file gave and `existing_paths` the referenced paths
/// (see `record_path_refs`) that exist in the working tree. A domain name is checked
/// before its records are looked at; the first error met is returned.
pub fn check_references(
    kb_dir_is_dir: bool,
    config: &KbConfig,
    domain: Option<&str>,
    files: &Vec<DomainRecords>,
    existing_paths: &Vec<String>,
) -> (res: Result<Vec<CheckResult>, KbError>)
    requires
        reported_summaries_splittable(kb_dir_is_dir, strings_view(config.domains), opt_str_view(domain), files_view(*files), strings_view(*existing_paths)),
    ensures
        match res {
            Ok(v) => spec_check_references(kb_dir_is_dir, strings_view(config.domains), opt_str_view(domain), files_view(*files), strings_view(*existing_paths)) == Ok::<Seq<CheckResultView>, KbErrorView>(results_view(v)),
            Err(e) => spec_check_references(kb_dir_is_dir, strings_view(config.domains), opt_str_view(domain), files_view(*files), strings_view(*existing_paths)) == Err::<Seq<CheckResultView>, KbErrorView>(e@),
        },
{
    match try_check_references(kb_dir_is_dir, config, domain, files, existing_paths) {
        Some(res) => res,
        None => Err(KbError::NotInitialized),
    }
}

/// Whether the summary of `record` can be cut (see `summary_splittable`).
pub fn summary_can_be_cut(record: &ExpertiseRecord) -> (res: bool)
    ensures
        res == summary_splittable(summary_source(record@)),
{
    let text: &String = match record {
        ExpertiseRecord::Convention { content, .. } => content,
        ExpertiseRecord::Pattern { name, .. } => name,
        ExpertiseRecord::Failure { description, .. } => description,
        ExpertiseRecord::Decision { title, .. } => title,
        ExpertiseRecord::Reference { name, .. } => name,
        ExpertiseRecord::Guide { name, .. } => name,
    };
    let s = text.as_str();
    s.as_bytes().len() <= 80 || s.is_char_boundary(77)
}

/// The check of `check_references`, for any input: `None` exactly when it would have to
/// cut a summary that cannot be cut, before meeting any error.
pub fn try_check_references(
    kb_dir_is_dir: bool,
    config: &KbConfig,
    domain: Option<&str>,
    files: &Vec<DomainRecords>,
    existing_paths: &Vec<String>,
) -> (res: Option<Result<Vec<CheckResult>, KbError>>)
    ensures
        res is None <==> !reported_summaries_splittable(kb_dir_is_dir, strings_view(config.domains), opt_str_view(domain), files_view(*files), strings_view(*existing_paths)),
        res matches Some(Ok(v)) ==> spec_check_references(kb_dir_is_dir, strings_view(config.domains), opt_str_view(domain), files_view(*files), strings_view(*existing_paths)) == Ok::<Seq<CheckResultView>, KbErrorView>(results_view(v)),
        res matches Some(Err(e)) ==> spec_check_references(kb_dir_is_dir, strings_view(config.domains), opt_str_view(domain), files_view(*files), strings_view(*existing_paths)) == Err::<Seq<CheckResultView>, KbErrorView>(e@),
{
    if !kb_dir_is_dir {
        return Some(Err(KbError::NotInitialized));
    }
    let ghost fv = files_view(*files);
    let ghost existing = strings_view(*existing_paths);
    let domains: Vec<String> = match domain {
        Some(d) => {
            match ensure_domain_exists(config, d) {
                Ok(()) => {},
                Err(e) => {
                    return Some(Err(e));
                },
            }
            let v = vec![d.to_owned()];
            assert(strings_view(v) =~= seq![d@]);
            v
        },
        None => crate::text::clone_strings(&config.domains),
    };
    let ghost dv = strings_view(domains);
    assert(spec_domains_to_check(strings_view(config.domains), opt_str_view(domain)) == Ok::<Seq<Seq<char>>, KbErrorView>(dv));
    let mut results: Vec<CheckResult> = Vec::new();
    assert(results_view(results) =~= seq![]);
    assert(dv.take(0) =~= Seq::<Seq<char>>::empty());
    let mut i: usize = 0;
    while i < domains.len()
        invariant
            kb_dir_is_dir,
            fv == files_view(*files),
            existing == strings_view(*existing_paths),
            dv == strings_view(domains),
            spec_domains_to_check(strings_view(config.domains), opt_str_view(domain)) == Ok::<Seq<Seq<char>>, KbErrorView>(dv),
            i <= domains@.len(),
            domains_results(dv.take(i as int), fv, existing) == Ok::<Seq<CheckResultView>, KbErrorView>(results_view(results)),
            domains_summaries_cuttable(dv.take(i as int), fv, existing),
        decreases domains@.len() - i,
    {
        assert(dv.take(i + 1).drop_last() =~= dv.take(i as int));
        assert(dv.take(i + 1).last() == domains@[i as int]@);
        let name = &domains[i];
        match validate_domain_name(name.as_str()) {
            Ok(()) => {},
            Err(e) => {
                proof {
                    lemma_error_persists(dv, (i + 1) as int, fv, existing, e@);
                    lemma_cuttable_persists(dv, (i + 1) as int, fv, existing);
                }
                return Some(Err(e));
            },
        }
        match find_domain_records(files, name) {
            None => {
                assert(results_view(results) + seq![] =~= results_view(results));
            },
            Some(entry) => {
                match &entry.records {
                    Err(e) => {
                        let err = clone_error(e);
                        proof {
                            lemma_error_persists(dv, (i + 1) as int, fv, existing, err@);
                            lemma_cuttable_persists(dv, (i + 1) as int, fv, existing);
                        }
                        return Some(Err(err));
                    },
                    Ok(records) => {
                        let ghost rv = records_view(*records);
                        assert(read_view(entry.records) == Ok::<Seq<RecordView>, KbErrorView>(rv));
                        assert forall|j: int| 0 <= j < rv.len() implies #[trigger] rv[j] == records@[j]@ by {}
                        if !check_records(name, records, existing_paths, &mut results) {
                            proof {
                                let j = choose|j: int| !(0 <= j < records@.len() && spec_broken_refs(records@[j]@, existing).len() > 0
                                    ==> summary_splittable(summary_source(#[trigger] records@[j]@)));
                                assert(rv[j] == records@[j]@);
                                assert(!domain_summaries_cuttable(dv[i as int], fv, existing));
                                assert(!domains_summaries_cuttable(dv.take(i + 1), fv, existing));
                                if domains_summaries_cuttable(dv, fv, existing) {
                                    lemma_cuttable_prefix(dv, (i + 1) as int, fv, existing);
                                }
                            }
                            return None;
                        }
                        assert(domain_summaries_cuttable(dv[i as int], fv, existing)) by {
                            assert forall|j: int| 0 <= j < rv.len() && spec_broken_refs(rv[j], existing).len() > 0
                                implies summary_splittable(summary_source(#[trigger] rv[j])) by {
                                assert(rv[j] == records@[j]@);
                            }
                        }
                    },
                }
            },
        }
        i = i + 1;
    }
    assert(dv.take(domains@.len() as int) =~= dv);
    Some(Ok(results))
}

/// Whatever prefix of the domains the summaries can be cut for, they can be cut for
/// every shorter prefix.
proof fn lemma_cuttable_prefix(
    domains: Seq<Seq<char>>,
    n: int,
    files: Seq<(Seq<char>, Result<Seq<RecordView>, KbErrorView>)>,
    existing: Seq<Seq<char>>,
)
    requires
        0 <= n <= domains.len(),
        domains_summaries_cuttable(domains, files, existing),
    ensures
        domains_summaries_cuttable(domains.take(n), files, existing),
    decreases domains.len() - n,
{
    if n == domains.len() {
        assert(domains.take(n) =~= domains);
    } else {
        lemma_cuttable_prefix(domains, n + 1, files, existing);
        assert(domains.take(n + 1).drop_last() =~= domains.take(n));
    }
}

/// Once a prefix of the domains gives an error, the domains after it cut nothing.
proof fn lemma_cuttable_persists(
    domains: Seq<Seq<char>>,
    n: int,
    files: Seq<(Seq<char>, Result<Seq<RecordView>, KbErrorView>)>,
    existing: Seq<Seq<char>>,
)
    requires
        0 <= n <= domains.len(),
        domains_summaries_cuttable(domains.take(n), files, existing),
        domains_results(domains.take(n), files, existing) is Err,
    ensures
        domains_summaries_cuttable(domains, files, existing),
    decreases domains.len() - n,
{
    if n == domains.len() {
        assert(domains.take(n) =~= domains);
    } else {
        assert(domains.take(n + 1).drop_last() =~= domains.take(n));
        lemma_cuttable_persists(domains, n + 1, files, existing);
    }
}

/// An entry found by `lookup_records` is one of the entries.
proof fn lemma_lookup_in(
    files: Seq<(Seq<char>, Result<Seq<RecordView>, KbErrorView>)>,
    domain: Seq<char>,
    found: Result<Seq<RecordView>, KbErrorView>,
)
    requires
        lookup_records(files, domain) == Some(found),
    ensures
        exists|k: int| 0 <= k < files.len() && files[k].1 == found,
    decreases files.len(),
{
    if files[0].0 == domain {
        assert(files[0].1 == found);
    } else {
        lemma_lookup_in(files.drop_first(), domain, found);
        let k = choose|k: int| 0 <= k < files.drop_first().len() && files.drop_first()[k].1 == found;
        assert(files[k + 1].1 == found);
    }
}

/// Once a prefix of the domains gives an error, every longer prefix gives the same one.
proof fn lemma_error_persists(
    domains: Seq<Seq<char>>,
    n: int,
    files: Seq<(Seq<char>, Result<Seq<RecordView>, KbErrorView>)>,
    existing: Seq<Seq<char>>,
    e: KbErrorView,
)
    requires
        0 <= n <= domains.len(),
        domains_results(domains.take(n), files, existing) == Err::<Seq<CheckResultView>, KbErrorView>(e),
    ensures
        domains_results(domains, files, existing) == Err::<Seq<CheckResultView>, KbErrorView>(e),
    decreases domains.len() - n,
{
    if n == domains.len() {
        assert(domains.take(n) =~= domains);
    } else {
        assert(domains.take(n + 1).drop_last() =~= domains.take(n));
        lemma_error_persists(domains, n + 1, files, existing, e);
    }
}

/// Copies an error.
pub fn clone_error(e: &KbError) -> (res: KbError)
    ensures
        res@ == e@,
{
    match e {
        KbError::NotInitialized => KbError::NotInitialized,
        KbError::InvalidDomainName(s) => KbError::InvalidDomainName(s.clone()),
        KbError::DomainNotFound { domain, available } => KbError::DomainNotFound { domain: domain.clone(), available: available.clone() },
        KbError::RecordNotFound(s) => KbError::RecordNotFound(s.clone()),
        KbError::ValidationError(s) => KbError::ValidationError(s.clone()),
        KbError::Io(s) => KbError::Io(s.clone()),
        KbError::Json(s) => KbError::Json(s.clone()),
        KbError::Yaml(s) => KbError::Yaml(s.clone()),
    }
}


proof fn lemma_path_refs_in_are_refs(groups: Seq<Option<Seq<char>>>)
    ensures
        forall|k: int| 0 <= k < path_refs_in(groups).len() ==> is_path_ref(#[trigger] path_refs_in(groups)[k]),
    decreases groups.len(),
{
    if groups.len() > 0 {
        lemma_path_refs_in_are_refs(groups.drop_last());
        let rest = path_refs_in(groups.drop_last());
        assert forall|k: int| 0 <= k < path_refs_in(groups).len() implies is_path_ref(#[trigger] path_refs_in(groups)[k]) by {
            if k < rest.len() {
                assert(path_refs_in(groups)[k] == rest[k]);
            }
        }
    }
}

/// Every reference found in a text is a file reference: no URL, no version number, and
/// it holds a `/` or a `*`.
pub proof fn law_extracted_paths_are_references(text: Seq<char>)
    ensures
        forall|k: int| 0 <= k < spec_extract_paths(text).len() ==> is_path_ref(#[trigger] spec_extract_paths(text)[k]),
{
    if let Some(groups) = regex_first_groups(PATH_REFERENCE_PATTERN@, text) {
        lemma_path_refs_in_are_refs(groups);
    }
}

proof fn lemma_non_glob(refs: Seq<Seq<char>>)
    ensures
        forall|k: int| 0 <= k < non_glob(refs).len() ==> !(#[trigger] non_glob(refs)[k]).contains('*'),
    decreases refs.len(),
{
    if refs.len() > 0 {
        lemma_non_glob(refs.drop_last());
        let rest = non_glob(refs.drop_last());
        assert forall|k: int| 0 <= k < non_glob(refs).len() implies !(#[trigger] non_glob(refs)[k]).contains('*') by {
            if k < rest.len() {
                assert(non_glob(refs)[k] == rest[k]);
            }
        }
    }
}

proof fn lemma_missing(refs: Seq<Seq<char>>, existing: Seq<Seq<char>>)
    ensures
        forall|k: int| 0 <= k < missing_refs(refs, existing).len() ==> {
            &&& !existing.contains(#[trigger] missing_refs(refs, existing)[k])
            &&& refs.contains(missing_refs(refs, existing)[k])
        },
    decreases refs.len(),
{
    if refs.len() > 0 {
        lemma_missing(refs.drop_last(), existing);
        let rest = missing_refs(refs.drop_last(), existing);
        assert forall|k: int| 0 <= k < rest.len() implies refs.contains(#[trigger] rest[k]) by {
            let j = choose|j: int| 0 <= j < refs.drop_last().len() && refs.drop_last()[j] == rest[k];
            assert(refs[j] == rest[k]);
        }
        assert(refs[refs.len() - 1] == refs.last());
    }
}

/// Whether a report is sound: it names at least one reference, and every reference it
/// names is a literal path that does not exist.
pub open spec fn report_sound(r: CheckResultView, existing: Seq<Seq<char>>) -> bool {
    &&& r.broken_refs.len() > 0
    &&& forall|k: int| 0 <= k < r.broken_refs.len() ==> {
        &&& !existing.contains(#[trigger] r.broken_refs[k])
        &&& !r.broken_refs[k].contains('*')
    }
}

proof fn lemma_broken_sound(r: RecordView, existing: Seq<Seq<char>>)
    ensures
        forall|k: int| 0 <= k < spec_broken_refs(r, existing).len() ==> {
            &&& !existing.contains(#[trigger] spec_broken_refs(r, existing)[k])
            &&& !spec_broken_refs(r, existing)[k].contains('*')
        },
{
    let refs = spec_record_path_refs(r);
    lemma_missing(refs, existing);
    lemma_non_glob(spec_extract_paths(spec_record_text(r)));
    assert forall|k: int| 0 <= k < spec_broken_refs(r, existing).len() implies !spec_broken_refs(r, existing)[k].contains('*') by {
        let p = spec_broken_refs(r, existing)[k];
        assert(refs.contains(p));
        let j = choose|j: int| 0 <= j < refs.len() && refs[j] == p;
        assert(!refs[j].contains('*'));
    }
}

proof fn lemma_record_results_sound(domain: Seq<char>, records: Seq<RecordView>, existing: Seq<Seq<char>>)
    ensures
        forall|k: int| 0 <= k < record_results(domain, records, existing).len() ==> {
            &&& report_sound(#[trigger] record_results(domain, records, existing)[k], existing)
            &&& record_results(domain, records, existing)[k].domain == domain
        },
    decreases records.len(),
{
    if records.len() > 0 {
        lemma_record_results_sound(domain, records.drop_last(), existing);
        lemma_broken_sound(records.last(), existing);
        let rest = record_results(domain, records.drop_last(), existing);
        let all = record_results(domain, records, existing);
        assert forall|k: int| 0 <= k < all.len() implies report_sound(#[trigger] all[k], existing) && all[k].domain == domain by {
            if k < rest.len() {
                assert(all[k] == rest[k]);
            }
        }
    }
}

proof fn lemma_domains_results_sound(
    domains: Seq<Seq<char>>,
    files: Seq<(Seq<char>, Result<Seq<RecordView>, KbErrorView>)>,
    existing: Seq<Seq<char>>,
)
    ensures
        domains_results(domains, files, existing) matches Ok(rs) ==> forall|k: int| 0 <= k < rs.len() ==> {
            &&& report_sound(#[trigger] rs[k], existing)
            &&& domains.contains(rs[k].domain)
        },
    decreases domains.len(),
{
    if domains.len() > 0 {
        lemma_domains_results_sound(domains.drop_last(), files, existing);
        if let Ok(rs) = domains_results(domains, files, existing) {
            let prev = domains_results(domains.drop_last(), files, existing)->Ok_0;
            let more = domain_results(domains.last(), files, existing)->Ok_0;
            assert(rs == prev + more);
            if let Some(Ok(records)) = lookup_records(files, domains.last()) {
                lemma_record_results_sound(domains.last(), records, existing);
            }
            assert forall|k: int| 0 <= k < rs.len() implies report_sound(#[trigger] rs[k], existing) && domains.contains(rs[k].domain) by {
                if k < prev.len() {
                    assert(rs[k] == prev[k]);
                    let j = choose|j: int| 0 <= j < domains.drop_last().len() && domains.drop_last()[j] == prev[k].domain;
                    assert(domains[j] == prev[k].domain);
                } else {
                    assert(rs[k] == more[k - prev.len()]);
                    assert(domains[domains.len() - 1] == domains.last());
                }
            }
        }
    }
}

/// Without the knowledge base directory a check is refused with `NotInitialized`,
/// whatever else it is given.
pub proof fn law_check_needs_kb_dir(
    configured: Seq<Seq<char>>,
    domain: Option<Seq<char>>,
    files: Seq<(Seq<char>, Result<Seq<RecordView>, KbErrorView>)>,
    existing: Seq<Seq<char>>,
)
    ensures
        spec_check_references(false, configured, domain, files, existing) == Err::<Seq<CheckResultView>, KbErrorView>(KbErrorView::NotInitialized),
        reported_summaries_splittable(false, configured, domain, files, existing),
{
}

/// A domain the configuration does not list is refused with `DomainNotFound`, before any
/// file is looked at and without any summary to cut.
pub proof fn law_check_unlisted_domain(
    configured: Seq<Seq<char>>,
    d: Seq<char>,
    files: Seq<(Seq<char>, Result<Seq<RecordView>, KbErrorView>)>,
    existing: Seq<Seq<char>>,
)
    requires
        !configured.contains(d),
    ensures
        spec_check_references(true, configured, Some(d), files, existing) == Err::<Seq<CheckResultView>, KbErrorView>(
            KbErrorView::DomainNotFound { domain: d, available: available_domains(configured) }),
        reported_summaries_splittable(true, configured, Some(d), files, existing),
{
}

/// Every report of a check names a checked domain and at least one reference, and every
/// reference it names is a literal path (no glob) that does not exist.
pub proof fn law_check_reports_sound(
    kb_dir_is_dir: bool,
    configured: Seq<Seq<char>>,
    domain: Option<Seq<char>>,
    files: Seq<(Seq<char>, Result<Seq<RecordView>, KbErrorView>)>,
    existing: Seq<Seq<char>>,
)
    ensures
        spec_check_references(kb_dir_is_dir, configured, domain, files, existing) matches Ok(rs) ==> forall|k: int| 0 <= k < rs.len() ==> {
            &&& report_sound(#[trigger] rs[k], existing)
            &&& configured.contains(rs[k].domain)
            &&& (domain matches Some(d) ==> rs[k].domain == d)
        },
{
    if let Ok(domains) = spec_domains_to_check(configured, domain) {
        lemma_domains_results_sound(domains, files, existing);
        if let Ok(rs) = spec_check_references(kb_dir_is_dir, configured, domain, files, existing) {
            assert forall|k: int| 0 <= k < rs.len() implies configured.contains(#[trigger] rs[k].domain) && (domain matches Some(d) ==> rs[k].domain == d) by {
                assert(domains.contains(rs[k].domain));
                if let Some(d) = domain {
                    assert(domains =~= seq![d]);
                }
            }
        }
    }
}

/// The report a record with broken references gets.
pub open spec fn expected_report(domain: Seq<char>, r: RecordView, existing: Seq<Seq<char>>) -> CheckResultView {
    CheckResultView {
        domain,
        entry_id: shown_id(r),
        entry_summary: spec_summary_text(summary_source(r)),
        broken_refs: spec_broken_refs(r, existing),
    }
}

proof fn lemma_record_results_complete(domain: Seq<char>, records: Seq<RecordView>, existing: Seq<Seq<char>>, j: int)
    requires
        0 <= j < records.len(),
        spec_broken_refs(records[j], existing).len() > 0,
    ensures
        record_results(domain, records, existing).contains(expected_report(domain, records[j], existing)),
    decreases records.len(),
{
    let rest = record_results(domain, records.drop_last(), existing);
    if j == records.len() - 1 {
        let all = record_results(domain, records, existing);
        assert(all[rest.len() as int] == expected_report(domain, records[j], existing));
    } else {
        assert(records.drop_last()[j] == records[j]);
        lemma_record_results_complete(domain, records.drop_last(), existing, j);
        let k = choose|k: int| 0 <= k < rest.len() && rest[k] == expected_report(domain, records[j], existing);
        let all = record_results(domain, records, existing);
        assert(all[k] == rest[k]);
    }
}

proof fn lemma_domains_results_complete(
    domains: Seq<Seq<char>>,
    files: Seq<(Seq<char>, Result<Seq<RecordView>, KbErrorView>)>,
    existing: Seq<Seq<char>>,
    i: int,
    records: Seq<RecordView>,
    j: int,
)
    requires
        domains_results(domains, files, existing) is Ok,
        0 <= i < domains.len(),
        lookup_records(files, domains[i]) == Some(Ok::<Seq<RecordView>, KbErrorView>(records)),
        0 <= j < records.len(),
        spec_broken_refs(records[j], existing).len() > 0,
    ensures
        domains_results(domains, files, existing)->Ok_0.contains(expected_report(domains[i], records[j], existing)),
    decreases domains.len(),
{
    let rs = domains_results(domains, files, existing)->Ok_0;
    let prev = domains_results(domains.drop_last(), files, existing)->Ok_0;
    let more = domain_results(domains.last(), files, existing)->Ok_0;
    assert(rs == prev + more);
    let expected = expected_report(domains[i], records[j], existing);
    if i == domains.len() - 1 {
        assert(domains.last() == domains[i]);
        assert(more == record_results(domains[i], records, existing));
        lemma_record_results_complete(domains[i], records, existing, j);
        let k = choose|k: int| 0 <= k < more.len() && more[k] == expected;
        assert(rs[prev.len() + k] == expected);
    } else {
        assert(domains.drop_last()[i] == domains[i]);
        lemma_domains_results_complete(domains.drop_last(), files, existing, i, records, j);
        let k = choose|k: int| 0 <= k < prev.len() && prev[k] == expected;
        assert(rs[k] == expected);
    }
}

/// A check misses nothing: when it succeeds, every record of a checked domain whose file
/// was read and that refers to a literal path that does not exist gets its report, with
/// its domain, id, summary and every such path.
pub proof fn law_check_reports_complete(
    kb_dir_is_dir: bool,
    configured: Seq<Seq<char>>,
    domain: Option<Seq<char>>,
    files: Seq<(Seq<char>, Result<Seq<RecordView>, KbErrorView>)>,
    existing: Seq<Seq<char>>,
    d: Seq<char>,
    records: Seq<RecordView>,
    j: int,
)
    requires
        spec_check_references(kb_dir_is_dir, configured, domain, files, existing) is Ok,
        spec_domains_to_check(configured, domain) matches Ok(ds) && ds.contains(d),
        lookup_records(files, d) == Some(Ok::<Seq<RecordView>, KbErrorView>(records)),
        0 <= j < records.len(),
        spec_broken_refs(records[j], existing).len() > 0,
    ensures
        spec_check_references(kb_dir_is_dir, configured, domain, files, existing)->Ok_0.contains(expected_report(d, records[j], existing)),
{
    let ds = spec_domains_to_check(configured, domain)->Ok_0;
    let i = choose|i: int| 0 <= i < ds.len() && ds[i] == d;
    lemma_domains_results_complete(ds, files, existing, i, records, j);
}

/// A summary takes at most 80 bytes of UTF-8 whenever it can be cut.
pub proof fn law_summary_fits(text: Seq<char>)
    requires
        summary_splittable(text),
    ensures
        encode_utf8(spec_summary_text(text)).len() <= 80,
{
    broadcast use vstd::utf8::group_utf8_lib;
    let bytes = encode_utf8(text);
    if bytes.len() > 80 {
        let head = bytes.subrange(0, 77);
        vstd::utf8::encode_utf8_valid_utf8(text);
        vstd::utf8::valid_utf8_split(bytes, 77);
        vstd::utf8::decode_utf8_encode_utf8(head);
        lemma_encode_concat(decode_utf8(head), "..."@);
        reveal_strlit("...");
        assert(encode_utf8("..."@).len() == 3) by {
            reveal_with_fuel(encode_utf8, 4);
        }
    }
}

/// The encoding of two texts one after the other is their encodings one after the other.
pub proof fn lemma_encode_concat(a: Seq<char>, b: Seq<char>)
    ensures
        encode_utf8(a + b) == encode_utf8(a) + encode_utf8(b),
    decreases a.len(),
{
    if a.len() == 0 {
        assert(a + b =~= b);
        assert(encode_utf8(a) + encode_utf8(b) =~= encode_utf8(b));
    } else {
        assert((a + b).drop_first() =~= a.drop_first() + b);
        assert((a + b)[0] == a[0]);
        lemma_encode_concat(a.drop_first(), b);
        assert(encode_utf8(a + b) =~= encode_utf8(a) + encode_utf8(b));
    }
}

/// The file list of a record, for the kinds that carry one (patterns and references).
pub open spec fn record_files(r: RecordView) -> Option<Seq<Seq<char>>> {
    match r {
        RecordView::Pattern { files, .. } => files,
        RecordView::Reference { files, .. } => files,
        _ => None,
    }
}

proof fn lemma_contains_self(v: Seq<char>)
    ensures
        seq_contains_seq(v, v),
{
    assert(v.subrange(0int, 0int + v.len()) =~= v);
    assert(exists|i: int| 0 <= i && i + v.len() <= v.len() && #[trigger] v.subrange(i, i + v.len()) == v);
}

proof fn lemma_contains_in_left(a: Seq<char>, b: Seq<char>, v: Seq<char>)
    requires
        seq_contains_seq(a, v),
    ensures
        seq_contains_seq(a + b, v),
{
    let i = choose|i: int| 0 <= i && i + v.len() <= a.len() && #[trigger] a.subrange(i, i + v.len()) == v;
    assert((a + b).subrange(i, i + v.len()) =~= a.subrange(i, i + v.len()));
}

proof fn lemma_contains_in_right(a: Seq<char>, b: Seq<char>, v: Seq<char>)
    requires
        seq_contains_seq(b, v),
    ensures
        seq_contains_seq(a + b, v),
{
    let i = choose|i: int| 0 <= i && i + v.len() <= b.len() && #[trigger] b.subrange(i, i + v.len()) == v;
    let k = i + a.len();
    assert((a + b).subrange(k, k + v.len()) =~= b.subrange(i, i + v.len()));
}

/// Each of the joined strings occurs in the joined text.
proof fn lemma_join_contains(parts: Seq<Seq<char>>, sep: Seq<char>, k: int)
    requires
        0 <= k < parts.len(),
    ensures
        seq_contains_seq(seq_join(parts, sep), parts[k]),
    decreases parts.len(),
{
    if parts.len() == 1 {
        lemma_contains_self(parts[0]);
    } else if k == parts.len() - 1 {
        lemma_contains_self(parts.last());
        lemma_contains_in_right(seq_join(parts.drop_last(), sep) + sep, parts.last(), parts.last());
    } else {
        lemma_join_contains(parts.drop_last(), sep, k);
        assert(parts.drop_last()[k] == parts[k]);
        lemma_contains_in_left(seq_join(parts.drop_last(), sep), sep, parts[k]);
        lemma_contains_in_left(seq_join(parts.drop_last(), sep) + sep, parts.last(), parts[k]);
    }
}

/// A record's searchable text holds every text field of its kind (a convention's
/// content; a pattern's, reference's or guide's name and description; a failure's
/// description and resolution; a decision's title and rationale), every file it lists,
/// and the file its evidence names; so a path written in any of them is looked for.
pub proof fn law_record_text_holds_fields(r: RecordView, key: Seq<char>, j: int)
    ensures
        r.text_field(key) matches Some(v) ==> seq_contains_seq(spec_record_text(r), v),
        0 <= j < files_or_empty(record_files(r)).len()
            ==> seq_contains_seq(spec_record_text(r), files_or_empty(record_files(r))[j]),
        (r.common().evidence is Some && r.common().evidence.unwrap().file is Some)
            ==> seq_contains_seq(spec_record_text(r), r.common().evidence.unwrap().file.unwrap()),
{
    let parts = record_text_parts(r);
    assert forall|k: int| 0 <= k < parts.len() implies seq_contains_seq(spec_record_text(r), #[trigger] parts[k]) by {
        lemma_join_contains(parts, " "@, k);
    }
    match r {
        RecordView::Convention { content, .. } => {
            assert(parts[0] == content);
        },
        RecordView::Pattern { name, description, files, .. } => {
            assert(parts[0] == name);
            assert(parts[1] == description);
            if 0 <= j < files_or_empty(files).len() {
                assert(parts[2 + j] == files_or_empty(files)[j]);
            }
        },
        RecordView::Failure { description, resolution, .. } => {
            assert(parts[0] == description);
            assert(parts[1] == resolution);
        },
        RecordView::Decision { title, rationale, .. } => {
            assert(parts[0] == title);
            assert(parts[1] == rationale);
        },
        RecordView::Reference { name, description, files, .. } => {
            assert(parts[0] == name);
            assert(parts[1] == description);
            if 0 <= j < files_or_empty(files).len() {
                assert(parts[2 + j] == files_or_empty(files)[j]);
            }
        },
        RecordView::Guide { name, description, .. } => {
            assert(parts[0] == name);
            assert(parts[1] == description);
        },
    }
    if r.common().evidence is Some && r.common().evidence.unwrap().file is Some {
        let f = r.common().evidence.unwrap().file.unwrap();
        let k = parts.len() - 1;
        assert(parts.len() >= 1);
        assert(parts[k] == f);
        lemma_join_contains(parts, " "@, k);
    }
}

} // verus!
