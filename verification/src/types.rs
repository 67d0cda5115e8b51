//! The knowledge base's data: record types, records, the configuration and errors.

use vstd::prelude::*;

verus! {

/// The character view of an optional string.
pub open spec fn opt_view(o: Option<String>) -> Option<Seq<char>> {
    match o {
        Some(s) => Some(s@),
        None => None,
    }
}

/// The character view of an optional string slice.
pub open spec fn opt_str_view(o: Option<&str>) -> Option<Seq<char>> {
    match o {
        Some(s) => Some(s@),
        None => None,
    }
}

/// The character views of a list of strings.
pub open spec fn strings_view(v: Vec<String>) -> Seq<Seq<char>> {
    v@.map_values(|s: String| s@)
}

/// The character views of an optional list of strings.
pub open spec fn opt_strings_view(o: Option<Vec<String>>) -> Option<Seq<Seq<char>>> {
    match o {
        Some(v) => Some(strings_view(v)),
        None => None,
    }
}

/// The six kinds of expertise record.
#[derive(Clone, Copy, Debug, PartialEq, Eq, Structural)]
pub enum RecordType {
    Convention,
    Pattern,
    Failure,
    Decision,
    Reference,
    Guide,
}

/// Whether records of type `t` are known by a name or title (patterns, decisions,
/// references and guides), so that a newer record of the same name replaces an older one.
pub open spec fn spec_is_named_type(t: RecordType) -> bool {
    match t {
        RecordType::Pattern | RecordType::Decision | RecordType::Reference | RecordType::Guide => true,
        RecordType::Convention | RecordType::Failure => false,
    }
}

impl RecordType {
    /// Whether records of this type are known by a name or title.
    pub fn is_named(&self) -> (res: bool)
        ensures
            res == spec_is_named_type(*self),
    {
        match self {
            RecordType::Pattern | RecordType::Decision | RecordType::Reference | RecordType::Guide => true,
            RecordType::Convention | RecordType::Failure => false,
        }
    }
}

/// How long-lived a record's knowledge is.
#[derive(Clone, Copy, Debug, PartialEq, Eq, Structural)]
pub enum Classification {
    Foundational,
    Tactical,
    Observational,
}

/// Where a record's knowledge came from.
#[derive(Clone, Debug)]
pub struct Evidence {
    pub commit: Option<String>,
    pub issue: Option<String>,
    pub file: Option<String>,
}

pub struct EvidenceView {
    pub commit: Option<Seq<char>>,
    pub issue: Option<Seq<char>>,
    pub file: Option<Seq<char>>,
}

impl View for Evidence {
    type V = EvidenceView;

    open spec fn view(&self) -> EvidenceView {
        EvidenceView { commit: opt_view(self.commit), issue: opt_view(self.issue), file: opt_view(self.file) }
    }
}

pub open spec fn opt_evidence_view(o: Option<Evidence>) -> Option<EvidenceView> {
    match o {
        Some(e) => Some(e@),
        None => None,
    }
}

/// One unit of recorded expertise.
#[derive(Clone, Debug)]
pub enum ExpertiseRecord {
    Convention {
        id: Option<String>,
        content: String,
        classification: Classification,
        recorded_at: String,
        evidence: Option<Evidence>,
        tags: Option<Vec<String>>,
        relates_to: Option<Vec<String>>,
        supersedes: Option<Vec<String>>,
    },
    Pattern {
        id: Option<String>,
        name: String,
        description: String,
        files: Option<Vec<String>>,
        classification: Classification,
        recorded_at: String,
        evidence: Option<Evidence>,
        tags: Option<Vec<String>>,
        relates_to: Option<Vec<String>>,
        supersedes: Option<Vec<String>>,
    },
    Failure {
        id: Option<String>,
        description: String,
        resolution: String,
        classification: Classification,
        recorded_at: String,
        evidence: Option<Evidence>,
        tags: Option<Vec<String>>,
        relates_to: Option<Vec<String>>,
        supersedes: Option<Vec<String>>,
    },
    Decision {
        id: Option<String>,
        title: String,
        rationale: String,
        date: Option<String>,
        classification: Classification,
        recorded_at: String,
        evidence: Option<Evidence>,
        tags: Option<Vec<String>>,
        relates_to: Option<Vec<String>>,
        supersedes: Option<Vec<String>>,
    },
    Reference {
        id: Option<String>,
        name: String,
        description: String,
        files: Option<Vec<String>>,
        classification: Classification,
        recorded_at: String,
        evidence: Option<Evidence>,
        tags: Option<Vec<String>>,
        relates_to: Option<Vec<String>>,
        supersedes: Option<Vec<String>>,
    },
    Guide {
        id: Option<String>,
        name: String,
        description: String,
        classification: Classification,
        recorded_at: String,
        evidence: Option<Evidence>,
        tags: Option<Vec<String>>,
        relates_to: Option<Vec<String>>,
        supersedes: Option<Vec<String>>,
    },
}

/// The fields that every kind of record carries.
pub struct CommonView {
    pub id: Option<Seq<char>>,
    pub classification: Classification,
    pub recorded_at: Seq<char>,
    pub evidence: Option<EvidenceView>,
    pub tags: Option<Seq<Seq<char>>>,
    pub relates_to: Option<Seq<Seq<char>>>,
    pub supersedes: Option<Seq<Seq<char>>>,
}

/// A record as a mathematical value: its kind, its text fields and its common fields.
pub enum RecordView {
    Convention { content: Seq<char>, common: CommonView },
    Pattern { name: Seq<char>, description: Seq<char>, files: Option<Seq<Seq<char>>>, common: CommonView },
    Failure { description: Seq<char>, resolution: Seq<char>, common: CommonView },
    Decision { title: Seq<char>, rationale: Seq<char>, date: Option<Seq<char>>, common: CommonView },
    Reference { name: Seq<char>, description: Seq<char>, files: Option<Seq<Seq<char>>>, common: CommonView },
    Guide { name: Seq<char>, description: Seq<char>, common: CommonView },
}

pub open spec fn common_view(
    id: Option<String>,
    classification: Classification,
    recorded_at: String,
    evidence: Option<Evidence>,
    tags: Option<Vec<String>>,
    relates_to: Option<Vec<String>>,
    supersedes: Option<Vec<String>>,
) -> CommonView {
    CommonView {
        id: opt_view(id),
        classification,
        recorded_at: recorded_at@,
        evidence: opt_evidence_view(evidence),
        tags: opt_strings_view(tags),
        relates_to: opt_strings_view(relates_to),
        supersedes: opt_strings_view(supersedes),
    }
}

impl View for ExpertiseRecord {
    type V = RecordView;

    open spec fn view(&self) -> RecordView {
        match *self {
            ExpertiseRecord::Convention { id, content, classification, recorded_at, evidence, tags, relates_to, supersedes } =>
                RecordView::Convention {
                    content: content@,
                    common: common_view(id, classification, recorded_at, evidence, tags, relates_to, supersedes),
                },
            ExpertiseRecord::Pattern { id, name, description, files, classification, recorded_at, evidence, tags, relates_to, supersedes } =>
                RecordView::Pattern {
                    name: name@,
                    description: description@,
                    files: opt_strings_view(files),
                    common: common_view(id, classification, recorded_at, evidence, tags, relates_to, supersedes),
                },
            ExpertiseRecord::Failure { id, description, resolution, classification, recorded_at, evidence, tags, relates_to, supersedes } =>
                RecordView::Failure {
                    description: description@,
                    resolution: resolution@,
                    common: common_view(id, classification, recorded_at, evidence, tags, relates_to, supersedes),
                },
            ExpertiseRecord::Decision { id, title, rationale, date, classification, recorded_at, evidence, tags, relates_to, supersedes } =>
                RecordView::Decision {
                    title: title@,
                    rationale: rationale@,
                    date: opt_view(date),
                    common: common_view(id, classification, recorded_at, evidence, tags, relates_to, supersedes),
                },
            ExpertiseRecord::Reference { id, name, description, files, classification, recorded_at, evidence, tags, relates_to, supersedes } =>
                RecordView::Reference {
                    name: name@,
                    description: description@,
                    files: opt_strings_view(files),
                    common: common_view(id, classification, recorded_at, evidence, tags, relates_to, supersedes),
                },
            ExpertiseRecord::Guide { id, name, description, classification, recorded_at, evidence, tags, relates_to, supersedes } =>
                RecordView::Guide {
                    name: name@,
                    description: description@,
                    common: common_view(id, classification, recorded_at, evidence, tags, relates_to, supersedes),
                },
        }
    }
}

impl RecordView {
    pub open spec fn common(self) -> CommonView {
        match self {
            RecordView::Convention { common, .. } => common,
            RecordView::Pattern { common, .. } => common,
            RecordView::Failure { common, .. } => common,
            RecordView::Decision { common, .. } => common,
            RecordView::Reference { common, .. } => common,
            RecordView::Guide { common, .. } => common,
        }
    }

    pub open spec fn record_type(self) -> RecordType {
        match self {
            RecordView::Convention { .. } => RecordType::Convention,
            RecordView::Pattern { .. } => RecordType::Pattern,
            RecordView::Failure { .. } => RecordType::Failure,
            RecordView::Decision { .. } => RecordType::Decision,
            RecordView::Reference { .. } => RecordType::Reference,
            RecordView::Guide { .. } => RecordType::Guide,
        }
    }

    /// The record's text field called `key` (content, name, description, resolution,
    /// title or rationale), when its kind has one.
    pub open spec fn text_field(self, key: Seq<char>) -> Option<Seq<char>> {
        match self {
            RecordView::Convention { content, .. } =>
                if key == "content"@ { Some(content) } else { None },
            RecordView::Pattern { name, description, .. } =>
                if key == "name"@ { Some(name) } else if key == "description"@ { Some(description) } else { None },
            RecordView::Failure { description, resolution, .. } =>
                if key == "description"@ { Some(description) } else if key == "resolution"@ { Some(resolution) } else { None },
            RecordView::Decision { title, rationale, .. } =>
                if key == "title"@ { Some(title) } else if key == "rationale"@ { Some(rationale) } else { None },
            RecordView::Reference { name, description, .. } =>
                if key == "name"@ { Some(name) } else if key == "description"@ { Some(description) } else { None },
            RecordView::Guide { name, description, .. } =>
                if key == "name"@ { Some(name) } else if key == "description"@ { Some(description) } else { None },
        }
    }
}

/// The lower-case name of a record type, as records carry it.
pub open spec fn record_type_name(t: RecordType) -> Seq<char> {
    match t {
        RecordType::Convention => "convention"@,
        RecordType::Pattern => "pattern"@,
        RecordType::Failure => "failure"@,
        RecordType::Decision => "decision"@,
        RecordType::Reference => "reference"@,
        RecordType::Guide => "guide"@,
    }
}

impl ExpertiseRecord {
    /// The record's identifier, when it has one.
    pub fn id(&self) -> (res: Option<&String>)
        ensures
            match res {
                Some(s) => self@.common().id == Some(s@),
                None => self@.common().id is None,
            },
    {
        match self {
            ExpertiseRecord::Convention { id, .. } => id.as_ref(),
            ExpertiseRecord::Pattern { id, .. } => id.as_ref(),
            ExpertiseRecord::Failure { id, .. } => id.as_ref(),
            ExpertiseRecord::Decision { id, .. } => id.as_ref(),
            ExpertiseRecord::Reference { id, .. } => id.as_ref(),
            ExpertiseRecord::Guide { id, .. } => id.as_ref(),
        }
    }

    /// The record's evidence, when it has any.
    pub fn evidence(&self) -> (res: Option<&Evidence>)
        ensures
            match res {
                Some(e) => self@.common().evidence == Some(e@),
                None => self@.common().evidence is None,
            },
    {
        match self {
            ExpertiseRecord::Convention { evidence, .. } => evidence.as_ref(),
            ExpertiseRecord::Pattern { evidence, .. } => evidence.as_ref(),
            ExpertiseRecord::Failure { evidence, .. } => evidence.as_ref(),
            ExpertiseRecord::Decision { evidence, .. } => evidence.as_ref(),
            ExpertiseRecord::Reference { evidence, .. } => evidence.as_ref(),
            ExpertiseRecord::Guide { evidence, .. } => evidence.as_ref(),
        }
    }

    /// The record's kind.
    pub fn record_type(&self) -> (res: RecordType)
        ensures
            res == self@.record_type(),
    {
        match self {
            ExpertiseRecord::Convention { .. } => RecordType::Convention,
            ExpertiseRecord::Pattern { .. } => RecordType::Pattern,
            ExpertiseRecord::Failure { .. } => RecordType::Failure,
            ExpertiseRecord::Decision { .. } => RecordType::Decision,
            ExpertiseRecord::Reference { .. } => RecordType::Reference,
            ExpertiseRecord::Guide { .. } => RecordType::Guide,
        }
    }

    /// When the record was written.
    pub fn recorded_at(&self) -> (res: &String)
        ensures
            res@ == self@.common().recorded_at,
    {
        match self {
            ExpertiseRecord::Convention { recorded_at, .. } => recorded_at,
            ExpertiseRecord::Pattern { recorded_at, .. } => recorded_at,
            ExpertiseRecord::Failure { recorded_at, .. } => recorded_at,
            ExpertiseRecord::Decision { recorded_at, .. } => recorded_at,
            ExpertiseRecord::Reference { recorded_at, .. } => recorded_at,
            ExpertiseRecord::Guide { recorded_at, .. } => recorded_at,
        }
    }
}

/// The contents of `kb.config.yaml`: a format version and the list of domains.
pub struct KbConfig {
    pub version: String,
    pub domains: Vec<String>,
}

impl Default for KbConfig {
    /// Version `"1"` and no domains.
    fn default() -> (res: Self)
        ensures
            res.version@ == "1"@,
            res.domains@.len() == 0,
    {
        proof {
            reveal_strlit("1");
        }
        KbConfig { version: "1".to_owned(), domains: Vec::new() }
    }
}

/// What can go wrong in the knowledge base.
pub enum KbError {
    /// The `.kb/` directory does not exist.
    NotInitialized,
    /// A domain name that is not letters, digits, `_` and `-` starting with a letter or digit.
    InvalidDomainName(String),
    /// A domain that the configuration does not list, with the list of those it does.
    DomainNotFound { domain: String, available: String },
    /// A record or session that does not exist.
    RecordNotFound(String),
    /// A request that the state of the data does not allow.
    ValidationError(String),
    /// A failure to read or write a file.
    Io(String),
    /// Text that is not the expected JSON.
    Json(String),
    /// Text that is not the expected YAML.
    Yaml(String),
}

/// A mathematical value of an error: its variant and its strings.
pub enum KbErrorView {
    NotInitialized,
    InvalidDomainName(Seq<char>),
    DomainNotFound { domain: Seq<char>, available: Seq<char> },
    RecordNotFound(Seq<char>),
    ValidationError(Seq<char>),
    Io(Seq<char>),
    Json(Seq<char>),
    Yaml(Seq<char>),
}

impl View for KbError {
    type V = KbErrorView;

    open spec fn view(&self) -> KbErrorView {
        match self {
            KbError::NotInitialized => KbErrorView::NotInitialized,
            KbError::InvalidDomainName(s) => KbErrorView::InvalidDomainName(s@),
            KbError::DomainNotFound { domain, available } => KbErrorView::DomainNotFound { domain: domain@, available: available@ },
            KbError::RecordNotFound(s) => KbErrorView::RecordNotFound(s@),
            KbError::ValidationError(s) => KbErrorView::ValidationError(s@),
            KbError::Io(s) => KbErrorView::Io(s@),
            KbError::Json(s) => KbErrorView::Json(s@),
            KbError::Yaml(s) => KbErrorView::Yaml(s@),
        }
    }
}

} // verus!
