//! The shared domain model: identifiers, scopes, request context, the
//! requests and replies of the services, stored chunks and the error type.

use vstd::prelude::*;
use crate::text::{concat, owned, same_chars};

verus! {

#[derive(Debug, Clone, PartialEq, Eq, Hash)]
pub struct TenantId(pub String);

#[derive(Debug, Clone, PartialEq, Eq, Hash)]
pub struct Namespace(pub String);

#[derive(Debug, Clone, PartialEq, Eq, Hash)]
pub struct AssetId(pub String);

#[derive(Debug, Clone, PartialEq, Eq, Hash)]
pub struct ActorId(pub String);

impl TenantId {
    pub fn duplicate(&self) -> (r: Self)
        ensures
            r == *self,
    {
        TenantId(self.0.clone())
    }
}

impl Namespace {
    pub fn duplicate(&self) -> (r: Self)
        ensures
            r == *self,
    {
        Namespace(self.0.clone())
    }
}

impl AssetId {
    pub fn duplicate(&self) -> (r: Self)
        ensures
            r == *self,
    {
        AssetId(self.0.clone())
    }
}

impl ActorId {
    pub fn duplicate(&self) -> (r: Self)
        ensures
            r == *self,
    {
        ActorId(self.0.clone())
    }
}

/// A copy of an optional text.
pub fn duplicate_text(o: &Option<String>) -> (r: Option<String>)
    ensures
        r == *o,
{
    match o {
        Some(s) => Some(s.clone()),
        None => None,
    }
}

/// A copy of an optional actor.
pub fn duplicate_actor(o: &Option<ActorId>) -> (r: Option<ActorId>)
    ensures
        r == *o,
{
    match o {
        Some(a) => Some(a.duplicate()),
        None => None,
    }
}

/// The tenant and namespace that a request works in.
#[derive(Debug, Clone, PartialEq, Eq)]
pub struct Scope {
    pub tenant_id: TenantId,
    pub namespace: Namespace,
}

impl Scope {
    pub fn duplicate(&self) -> (r: Self)
        ensures
            r == *self,
    {
        Scope { tenant_id: self.tenant_id.duplicate(), namespace: self.namespace.duplicate() }
    }
}

/// Who is asking, and which namespaces they may touch (none listed: any).
#[derive(Debug, Clone, PartialEq, Eq)]
pub struct RequestContext {
    pub tenant_id: TenantId,
    pub actor_id: Option<ActorId>,
    pub roles: Vec<String>,
    pub allowed_namespaces: Vec<Namespace>,
    pub request_id: String,
}

/// How a document came in; a label stored with every chunk.
#[derive(Debug, Clone, Copy, PartialEq, Eq, Structural)]
pub enum SourceType {
    Upload,
    LocalFile,
    Website,
    Pdf,
    Image,
    Code,
    Text,
    IdeBuffer,
}

/// The wire name of a source type.
pub open spec fn source_type_name(t: SourceType) -> Seq<char> {
    match t {
        SourceType::Upload => "upload"@,
        SourceType::LocalFile => "local_file"@,
        SourceType::Website => "website"@,
        SourceType::Pdf => "pdf"@,
        SourceType::Image => "image"@,
        SourceType::Code => "code"@,
        SourceType::Text => "text"@,
        SourceType::IdeBuffer => "ide_buffer"@,
    }
}

/// The source type whose wire name is `s`, if any.
pub open spec fn source_type_named(s: Seq<char>) -> Option<SourceType> {
    if s == "upload"@ {
        Some(SourceType::Upload)
    } else if s == "local_file"@ {
        Some(SourceType::LocalFile)
    } else if s == "website"@ {
        Some(SourceType::Website)
    } else if s == "pdf"@ {
        Some(SourceType::Pdf)
    } else if s == "image"@ {
        Some(SourceType::Image)
    } else if s == "code"@ {
        Some(SourceType::Code)
    } else if s == "text"@ {
        Some(SourceType::Text)
    } else if s == "ide_buffer"@ {
        Some(SourceType::IdeBuffer)
    } else {
        None
    }
}

impl SourceType {
    pub fn as_str(&self) -> (r: &'static str)
        ensures
            r@ == source_type_name(*self),
    {
        match self {
            SourceType::Upload => "upload",
            SourceType::LocalFile => "local_file",
            SourceType::Website => "website",
            SourceType::Pdf => "pdf",
            SourceType::Image => "image",
            SourceType::Code => "code",
            SourceType::Text => "text",
            SourceType::IdeBuffer => "ide_buffer",
        }
    }

    pub fn parse(value: &str) -> (r: Option<SourceType>)
        ensures
            r == source_type_named(value@),
    {
        if same_chars(value, "upload") {
            Some(SourceType::Upload)
        } else if same_chars(value, "local_file") {
            Some(SourceType::LocalFile)
        } else if same_chars(value, "website") {
            Some(SourceType::Website)
        } else if same_chars(value, "pdf") {
            Some(SourceType::Pdf)
        } else if same_chars(value, "image") {
            Some(SourceType::Image)
        } else if same_chars(value, "code") {
            Some(SourceType::Code)
        } else if same_chars(value, "text") {
            Some(SourceType::Text)
        } else if same_chars(value, "ide_buffer") {
            Some(SourceType::IdeBuffer)
        } else {
            None
        }
    }
}

/// Reading back the wire name of a source type gives that source type.
pub proof fn law_source_type_round_trip(t: SourceType)
    ensures
        source_type_named(source_type_name(t)) == Some(t),
{
    reveal_strlit("upload");
    reveal_strlit("local_file");
    reveal_strlit("website");
    reveal_strlit("pdf");
    reveal_strlit("image");
    reveal_strlit("code");
    reveal_strlit("text");
    reveal_strlit("ide_buffer");
    let n = source_type_name(t);
    assert(n.len() == 4 ==> (n == "code"@ <==> n[0] == 'c'));
    assert(n.len() == 4 ==> (n == "text"@ <==> n[0] == 't'));
    match t {
        SourceType::Code => {
            assert(n[0] == 'c');
            assert(source_type_named(n) == Some(t));
        },
        SourceType::Text => {
            assert(n[0] == 't');
            assert(source_type_named(n) == Some(t));
        },
        SourceType::Image => {
            assert(n.len() == 5);
            assert(source_type_named(n) == Some(t));
        },
        SourceType::IdeBuffer => {
            assert(n[0] == 'i' && "local_file"@[0] == 'l');
            assert(source_type_named(n) == Some(t));
        },
        _ => {},
    }
}

/// A name that parses names exactly one source type, the one whose wire name it is.
pub proof fn law_source_type_names_unique(s: Seq<char>)
    ensures
        source_type_named(s) matches Some(t) ==> source_type_name(t) == s,
{
}

#[derive(Debug, Clone, PartialEq, Eq)]
pub struct IngestRequest {
    pub scope: Scope,
    pub asset_id: AssetId,
    pub source_type: SourceType,
    pub source_uri: Option<String>,
    pub content: Option<String>,
    pub mime_type: Option<String>,
}

#[derive(Debug, Clone, PartialEq, Eq)]
pub struct IngestResponse {
    pub asset_id: AssetId,
    pub chunks_written: usize,
}

#[derive(Debug, Clone, PartialEq, Eq)]
pub struct ExtractRequest {
    pub scope: Scope,
    pub source_type: SourceType,
    pub source_uri: Option<String>,
    pub content: Option<String>,
}

#[derive(Debug, Clone, PartialEq, Eq)]
pub struct ExtractResponse {
    pub text: String,
}

#[derive(Debug, Clone, PartialEq, Eq)]
pub struct QueryRequest {
    pub scope: Scope,
    pub query: String,
    pub asset_id: Option<AssetId>,
    pub k: usize,
}

#[derive(Debug, Clone, PartialEq, Eq)]
pub struct BatchQueryRequest {
    pub scope: Scope,
    pub query: String,
    pub asset_ids: Vec<AssetId>,
    pub k: usize,
}

/// A point in time: whole seconds since the Unix epoch and the nanoseconds
/// past that second.
#[derive(Debug, Clone, Copy, PartialEq, Eq)]
pub struct Timestamp {
    pub seconds: i64,
    pub nanos: u32,
}

/// `chrono::Utc::now`, read as whole seconds since the Unix epoch and the
/// nanoseconds past that second. Nothing is stated of the reading: it is the
/// machine's clock.
#[verifier::external_body]
pub(crate) fn current_time() -> (r: Timestamp) {
    let now = chrono::Utc::now();
    Timestamp { seconds: now.timestamp(), nanos: now.timestamp_subsec_nanos() }
}

/// One stored window of a document, with the metadata kept beside it.
#[derive(Debug, Clone, PartialEq, Eq)]
pub struct ChunkRecord {
    pub tenant_id: TenantId,
    pub namespace: Namespace,
    pub asset_id: AssetId,
    pub actor_id: Option<ActorId>,
    pub source_type: SourceType,
    pub source_uri: Option<String>,
    pub digest: String,
    pub chunk_index: u32,
    pub page: Option<u32>,
    pub path: Option<String>,
    pub language: Option<String>,
    pub mime_type: Option<String>,
    pub title: Option<String>,
    pub text: String,
    pub tags: Vec<String>,
    pub created_at: Timestamp,
}

#[derive(Debug, Clone, PartialEq, Eq)]
pub struct AssetSummary {
    pub asset_id: AssetId,
    pub chunk_count: usize,
}

#[derive(Debug, Clone, PartialEq, Eq)]
pub struct AssetFilter {
    pub source_type: Option<SourceType>,
}

impl Default for AssetFilter {
    fn default() -> (r: Self)
        ensures
            r.source_type.is_none(),
    {
        AssetFilter { source_type: None }
    }
}

#[derive(Debug, Clone, PartialEq, Eq)]
pub struct UpsertSummary {
    pub points_written: usize,
}

#[derive(Debug, Clone, PartialEq, Eq)]
pub struct DeleteSummary {
    pub points_deleted: usize,
}

#[derive(Debug, Clone, PartialEq, Eq)]
pub enum CoreError {
    Validation(String),
    Unauthorized,
    Forbidden,
    NotFound,
    Provider(String),
    Storage(String),
    Lock(String),
    NotImplemented(String),
}

/// The abstract value of an error: its kind and, where it has one, its detail text.
pub enum Fault {
    Validation(Seq<char>),
    Unauthorized,
    Forbidden,
    NotFound,
    Provider(Seq<char>),
    Storage(Seq<char>),
    Lock(Seq<char>),
    NotImplemented(Seq<char>),
}

impl View for CoreError {
    type V = Fault;

    open spec fn view(&self) -> Fault {
        match self {
            CoreError::Validation(m) => Fault::Validation(m@),
            CoreError::Unauthorized => Fault::Unauthorized,
            CoreError::Forbidden => Fault::Forbidden,
            CoreError::NotFound => Fault::NotFound,
            CoreError::Provider(m) => Fault::Provider(m@),
            CoreError::Storage(m) => Fault::Storage(m@),
            CoreError::Lock(m) => Fault::Lock(m@),
            CoreError::NotImplemented(m) => Fault::NotImplemented(m@),
        }
    }
}

/// The human-readable text of an error.
pub open spec fn error_text(e: CoreError) -> Seq<char> {
    match e {
        CoreError::Validation(m) => "validation error: "@ + m@,
        CoreError::Unauthorized => "unauthorized"@,
        CoreError::Forbidden => "forbidden"@,
        CoreError::NotFound => "not found"@,
        CoreError::Provider(m) => "provider error: "@ + m@,
        CoreError::Storage(m) => "storage error: "@ + m@,
        CoreError::Lock(m) => "lock error: "@ + m@,
        CoreError::NotImplemented(m) => "not implemented: "@ + m@,
    }
}

impl CoreError {
    /// The human-readable text of the error.
    pub fn message(&self) -> (r: String)
        ensures
            r@ == error_text(*self),
    {
        match self {
            CoreError::Validation(m) => concat("validation error: ", m.as_str()),
            CoreError::Unauthorized => owned("unauthorized"),
            CoreError::Forbidden => owned("forbidden"),
            CoreError::NotFound => owned("not found"),
            CoreError::Provider(m) => concat("provider error: ", m.as_str()),
            CoreError::Storage(m) => concat("storage error: ", m.as_str()),
            CoreError::Lock(m) => concat("lock error: ", m.as_str()),
            CoreError::NotImplemented(m) => concat("not implemented: ", m.as_str()),
        }
    }
}

} // verus!
