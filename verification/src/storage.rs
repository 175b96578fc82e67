//! The vector store's rules: its configuration, the payload kept with each
//! point, the filter that confines every read to one scope, the checks made
//! before writing and searching, and the per-asset summary of stored points.

use vstd::prelude::*;
use crate::domain::{
    ActorId, AssetId, AssetSummary, ChunkRecord, CoreError, Fault, Namespace, Scope, SourceType,
    TenantId, Timestamp, duplicate_text, source_type_name, source_type_named,
};
use crate::identity::{point_id, uuid_v5_oid_text, point_seed};
use crate::text::{concat, decimal, decimal_string, owned};
use vstd::utf8::encode_utf8;

verus! {

/// Where the vector store is and what collection it keeps chunks in.
#[derive(Debug, Clone, PartialEq, Eq)]
pub struct QdrantRepositoryConfig {
    pub url: String,
    pub api_key: Option<String>,
    pub collection_name: String,
    pub vector_size: u64,
}

impl Default for QdrantRepositoryConfig {
    fn default() -> (r: Self)
        ensures
            r.url@ == "http://localhost:6334"@,
            r.api_key is None,
            r.collection_name@ == "chunks_te3_small"@,
            r.vector_size == 1536,
    {
        QdrantRepositoryConfig {
            url: owned("http://localhost:6334"),
            api_key: None,
            collection_name: owned("chunks_te3_small"),
            vector_size: 1536,
        }
    }
}

impl QdrantRepositoryConfig {
    /// The API key to send: the configured one, unless it is empty.
    pub fn effective_api_key(&self) -> (r: Option<String>)
        ensures
            match self.api_key {
                Some(k) => if k@.len() == 0 { r is None } else { r == Some(k) },
                None => r is None,
            },
    {
        match &self.api_key {
            Some(k) => if k.as_str().is_empty() {
                None
            } else {
                Some(k.clone())
            },
            None => None,
        }
    }
}

/// The payload fields that get a keyword index.
pub fn index_fields() -> (r: Vec<&'static str>)
    ensures
        r@.len() == 5,
        r@[0]@ == "tenant_id"@,
        r@[1]@ == "namespace"@,
        r@[2]@ == "asset_id"@,
        r@[3]@ == "actor_id"@,
        r@[4]@ == "source_type"@,
{
    let mut r: Vec<&'static str> = Vec::new();
    r.push("tenant_id");
    r.push("namespace");
    r.push("asset_id");
    r.push("actor_id");
    r.push("source_type");
    r
}

/// `c` with ASCII capitals made small.
pub open spec fn ascii_lower(c: char) -> char {
    if 'A' <= c <= 'Z' { ((c as u32) + 32) as char } else { c }
}

pub open spec fn contains_at(s: Seq<char>, word: Seq<char>, i: int) -> bool {
    0 <= i && i + word.len() <= s.len() && forall|j: int|
        0 <= j < word.len() ==> ascii_lower(#[trigger] s[i + j]) == word[j]
}

/// Whether `s`, with ASCII capitals made small, contains `word`.
pub open spec fn contains_folded(s: Seq<char>, word: Seq<char>) -> bool {
    exists|i: int| contains_at(s, word, i)
}

fn lower_char(c: char) -> (r: char)
    ensures
        r == ascii_lower(c),
{
    if 'A' <= c && c <= 'Z' {
        let u: u8 = (c as u8) + 32;
        u as char
    } else {
        c
    }
}

/// Whether `s`, read without regard to ASCII case, contains `word` (itself lowercase).
pub fn contains_ignoring_case(s: &str, word: &str) -> (r: bool)
    ensures
        r == contains_folded(s@, word@),
{
    let v = crate::text::chars_of(s);
    let w = crate::text::chars_of(word);
    if w.len() > v.len() {
        assert forall|i: int| !contains_at(s@, word@, i) by {}
        return false;
    }
    let last = v.len() - w.len();
    let mut i: usize = 0;
    while i <= last
        invariant
            v@ == s@,
            w@ == word@,
            w.len() <= v.len(),
            last == v.len() - w.len(),
            forall|k: int| 0 <= k < i ==> !contains_at(s@, word@, k),
        decreases last + 1 - i,
    {
        let mut j: usize = 0;
        let mut ok = true;
        while j < w.len()
            invariant
                v@ == s@,
                w@ == word@,
                i <= last,
                last == v.len() - w.len(),
                j <= w.len(),
                ok ==> forall|m: int| 0 <= m < j ==> ascii_lower(s@[i + m]) == word@[m],
                !ok ==> !contains_at(s@, word@, i as int),
            decreases w.len() - j,
        {
            if ok && lower_char(v[i + j]) != w[j] {
                ok = false;
            }
            j += 1;
        }
        if ok {
            assert(contains_at(s@, word@, i as int));
            return true;
        }
        if i == last {
            assert forall|k: int| !contains_at(s@, word@, k) by {
                if 0 <= k && k + word@.len() <= s@.len() {
                    assert(k <= last);
                }
            }
            return false;
        }
        i += 1;
    }
    assert forall|k: int| !contains_at(s@, word@, k) by {
        if 0 <= k && k + word@.len() <= s@.len() {
            assert(k <= last);
        }
    }
    false
}

/// What a failed index creation means: nothing when the store says the index
/// already exists, a storage error otherwise.
pub open spec fn index_failure(field: Seq<char>, text: Seq<char>) -> Option<Fault> {
    if contains_folded(text, "already"@) {
        None
    } else {
        Some(Fault::Storage("create_field_index failed for '"@ + field + "': "@ + text))
    }
}

/// The error, if any, that a failed index creation on `field` is reported as.
pub fn index_error(field: &str, text: &str) -> (r: Option<CoreError>)
    ensures
        match index_failure(field@, text@) {
            Some(f) => r matches Some(e) && e@ == f,
            None => r is None,
        },
{
    if contains_ignoring_case(text, "already") {
        return None;
    }
    let a = concat("create_field_index failed for '", field);
    let b = concat(a.as_str(), "': ");
    Some(CoreError::Storage(concat(b.as_str(), text)))
}

/// What the store reports of an existing collection's vectors, read down to
/// the vector size.
#[derive(Debug, Clone, PartialEq, Eq)]
pub enum CollectionVectors {
    NoResult,
    NoConfig,
    NoParams,
    NoVectorsConfig,
    /// The size of its (first) vector parameters, if it could be determined.
    Size(Option<u64>),
}

pub open spec fn vector_size_fault(info: CollectionVectors, name: Seq<char>, expected: u64) -> Option<Fault> {
    match info {
        CollectionVectors::NoResult => Some(Fault::Storage("collection_info returned no result"@)),
        CollectionVectors::NoConfig => Some(Fault::Storage("collection has no config payload"@)),
        CollectionVectors::NoParams => Some(Fault::Storage("collection has no params payload"@)),
        CollectionVectors::NoVectorsConfig => Some(Fault::Storage("collection has no vectors_config"@)),
        CollectionVectors::Size(None) => Some(
            Fault::Storage("unable to determine collection vector size"@),
        ),
        CollectionVectors::Size(Some(actual)) => if actual == expected {
            None
        } else {
            Some(
                Fault::Validation(
                    "qdrant collection '"@ + name + "' vector size mismatch: expected "@
                        + decimal(expected as nat) + ", found "@ + decimal(actual as nat),
                ),
            )
        },
    }
}

impl QdrantRepositoryConfig {
    /// Accepts an existing collection only when its vectors have the
    /// configured size.
    pub fn check_vector_size(&self, info: &CollectionVectors) -> (r: Result<(), CoreError>)
        ensures
            match vector_size_fault(*info, self.collection_name@, self.vector_size) {
                Some(f) => r matches Err(e) && e@ == f,
                None => r is Ok,
            },
    {
        match info {
            CollectionVectors::NoResult => Err(
                CoreError::Storage("collection_info returned no result".to_owned()),
            ),
            CollectionVectors::NoConfig => Err(
                CoreError::Storage("collection has no config payload".to_owned()),
            ),
            CollectionVectors::NoParams => Err(
                CoreError::Storage("collection has no params payload".to_owned()),
            ),
            CollectionVectors::NoVectorsConfig => Err(
                CoreError::Storage("collection has no vectors_config".to_owned()),
            ),
            CollectionVectors::Size(None) => Err(
                CoreError::Storage("unable to determine collection vector size".to_owned()),
            ),
            CollectionVectors::Size(Some(actual)) => {
                if *actual == self.vector_size {
                    Ok(())
                } else {
                    let a = concat("qdrant collection '", self.collection_name.as_str());
                    let b = concat(a.as_str(), "' vector size mismatch: expected ");
                    let e = decimal_string(self.vector_size);
                    let c = concat(b.as_str(), e.as_str());
                    let d = concat(c.as_str(), ", found ");
                    let f = decimal_string(*actual);
                    Err(CoreError::Validation(concat(d.as_str(), f.as_str())))
                }
            },
        }
    }
}

/// The RFC 3339 text of an instant, if the instant is in the calendar's range.
pub uninterp spec fn rfc3339_text(seconds: i64, nanos: u32) -> Option<Seq<char>>;

/// The instant an RFC 3339 text denotes, as seconds and nanoseconds since the epoch.
pub uninterp spec fn rfc3339_instant(text: Seq<char>) -> Option<(i64, u32)>;

/// Whether an instant falls in the years 0000 to 9999, the years that RFC 3339
/// writes with four digits.
pub open spec fn four_digit_year(seconds: i64) -> bool {
    -62167219200 <= seconds <= 253402300799
}

/// `chrono::DateTime::<Utc>::from_timestamp`, written out with `to_rfc3339`.
/// Chrono gives an instant for every second of the years 0000 to 9999 with
/// fewer than a billion nanoseconds, and its RFC 3339 parser reads the text of
/// an instant of those years back as the same instant (other years are written
/// with a sign and more digits, which the parser refuses).
#[verifier::external_body]
fn format_rfc3339(t: Timestamp) -> (r: Option<String>)
    ensures
        r is Some <==> rfc3339_text(t.seconds, t.nanos) is Some,
        r matches Some(s) ==> s@ == rfc3339_text(t.seconds, t.nanos)->0,
        four_digit_year(t.seconds) && t.nanos < 1_000_000_000 ==> r is Some,
        four_digit_year(t.seconds) ==> (r matches Some(s) ==> rfc3339_instant(s@) == Some(
            (t.seconds, t.nanos),
        )),
{
    match chrono::DateTime::<chrono::Utc>::from_timestamp(t.seconds, t.nanos) {
        Some(d) => Some(d.to_rfc3339()),
        None => None,
    }
}

/// `chrono::DateTime::parse_from_rfc3339`, read back as seconds and
/// nanoseconds since the epoch.
#[verifier::external_body]
fn parse_rfc3339(text: &str) -> (r: Option<Timestamp>)
    ensures
        r is Some <==> rfc3339_instant(text@) is Some,
        r matches Some(t) ==> (t.seconds, t.nanos) == rfc3339_instant(text@)->0,
{
    match chrono::DateTime::parse_from_rfc3339(text) {
        Ok(d) => Some(Timestamp { seconds: d.timestamp(), nanos: d.timestamp_subsec_nanos() }),
        Err(_) => None,
    }
}

/// The payload stored with a point: a chunk record in plain fields.
#[derive(Debug, Clone, PartialEq, Eq)]
pub struct StoredPayload {
    pub tenant_id: String,
    pub namespace: String,
    pub asset_id: String,
    pub actor_id: Option<String>,
    pub source_type: String,
    pub source_uri: Option<String>,
    pub digest: String,
    pub chunk_index: u32,
    pub page: Option<u32>,
    pub path: Option<String>,
    pub language: Option<String>,
    pub mime_type: Option<String>,
    pub title: Option<String>,
    pub text: String,
    pub tags: Vec<String>,
    pub created_at: String,
}

/// The payload of a chunk: its fields as they are, the actor by name, the
/// source type by wire name, the creation time in RFC 3339.
pub open spec fn payload_of(c: ChunkRecord, p: StoredPayload) -> bool {
    &&& p.tenant_id == c.tenant_id.0
    &&& p.namespace == c.namespace.0
    &&& p.asset_id == c.asset_id.0
    &&& p.actor_id == match c.actor_id {
        Some(a) => Some(a.0),
        None => None::<String>,
    }
    &&& p.source_type@ == source_type_name(c.source_type)
    &&& p.source_uri == c.source_uri
    &&& p.digest == c.digest
    &&& p.chunk_index == c.chunk_index
    &&& p.page == c.page
    &&& p.path == c.path
    &&& p.language == c.language
    &&& p.mime_type == c.mime_type
    &&& p.title == c.title
    &&& p.text == c.text
    &&& p.tags@ == c.tags@
    &&& rfc3339_text(c.created_at.seconds, c.created_at.nanos) == Some(p.created_at@)
    &&& four_digit_year(c.created_at.seconds) ==> rfc3339_instant(p.created_at@) == Some(
        (c.created_at.seconds, c.created_at.nanos),
    )
}

/// The chunk a payload describes: its fields as they are, an unknown source
/// type read as `Text`, an unreadable creation time replaced by `now`.
pub open spec fn record_from(p: StoredPayload, now: Timestamp, c: ChunkRecord) -> bool {
    &&& c.tenant_id == TenantId(p.tenant_id)
    &&& c.namespace == Namespace(p.namespace)
    &&& c.asset_id == AssetId(p.asset_id)
    &&& c.actor_id == match p.actor_id {
        Some(a) => Some(ActorId(a)),
        None => None::<ActorId>,
    }
    &&& c.source_type == match source_type_named(p.source_type@) {
        Some(t) => t,
        None => SourceType::Text,
    }
    &&& c.source_uri == p.source_uri
    &&& c.digest == p.digest
    &&& c.chunk_index == p.chunk_index
    &&& c.page == p.page
    &&& c.path == p.path
    &&& c.language == p.language
    &&& c.mime_type == p.mime_type
    &&& c.title == p.title
    &&& c.text == p.text
    &&& c.tags@ == p.tags@
    &&& c.created_at == match rfc3339_instant(p.created_at@) {
        Some(i) => Timestamp { seconds: i.0, nanos: i.1 },
        None => now,
    }
}

fn copy_texts(v: &Vec<String>) -> (r: Vec<String>)
    ensures
        r@ == v@,
{
    let mut r: Vec<String> = Vec::new();
    let mut i: usize = 0;
    while i < v.len()
        invariant
            i <= v.len(),
            r@ == v@.take(i as int),
        decreases v.len() - i,
    {
        r.push(v[i].clone());
        assert(v@.take(i + 1) =~= v@.take(i as int).push(v@[i as int]));
        i += 1;
    }
    assert(v@.take(v.len() as int) =~= v@);
    r
}

pub open spec fn payload_failure() -> Fault {
    Fault::Storage("payload serialization failed: timestamp out of range"@)
}

impl StoredPayload {
    /// The payload of a chunk; refused when its creation time cannot be written.
    pub fn from_chunk(chunk: &ChunkRecord) -> (r: Result<StoredPayload, CoreError>)
        ensures
            match r {
                Ok(p) => payload_of(*chunk, p),
                Err(e) => rfc3339_text(chunk.created_at.seconds, chunk.created_at.nanos) is None
                    && e@ == payload_failure(),
            },
            four_digit_year(chunk.created_at.seconds) && chunk.created_at.nanos < 1_000_000_000
                ==> r is Ok,
    {
        let created_at = match format_rfc3339(chunk.created_at) {
            Some(t) => t,
            None => {
                return Err(
                    CoreError::Storage(
                        "payload serialization failed: timestamp out of range".to_owned(),
                    ),
                );
            },
        };
        let source = owned(chunk.source_type.as_str());
        Ok(StoredPayload {
            tenant_id: chunk.tenant_id.0.clone(),
            namespace: chunk.namespace.0.clone(),
            asset_id: chunk.asset_id.0.clone(),
            actor_id: match &chunk.actor_id {
                Some(a) => Some(a.0.clone()),
                None => None,
            },
            source_type: source,
            source_uri: duplicate_text(&chunk.source_uri),
            digest: chunk.digest.clone(),
            chunk_index: chunk.chunk_index,
            page: chunk.page,
            path: duplicate_text(&chunk.path),
            language: duplicate_text(&chunk.language),
            mime_type: duplicate_text(&chunk.mime_type),
            title: duplicate_text(&chunk.title),
            text: chunk.text.clone(),
            tags: copy_texts(&chunk.tags),
            created_at,
        })
    }

    /// The chunk this payload describes, an unreadable creation time replaced
    /// by the clock's reading.
    pub fn into_chunk_record(self) -> (r: ChunkRecord)
        ensures
            exists|now: Timestamp| record_from(self, now, r),
    {
        let ghost payload = self;
        let now = crate::domain::current_time();
        let r = self.into_chunk_record_at(now);
        assert(record_from(payload, now, r));
        r
    }

    /// The chunk this payload describes, an unreadable creation time replaced
    /// by `now`.
    pub fn into_chunk_record_at(self, now: Timestamp) -> (r: ChunkRecord)
        ensures
            record_from(self, now, r),
    {
        let created_at = match parse_rfc3339(self.created_at.as_str()) {
            Some(t) => t,
            None => now,
        };
        let source_type = match SourceType::parse(self.source_type.as_str()) {
            Some(t) => t,
            None => SourceType::Text,
        };
        ChunkRecord {
            tenant_id: TenantId(self.tenant_id),
            namespace: Namespace(self.namespace),
            asset_id: AssetId(self.asset_id),
            actor_id: match self.actor_id {
                Some(a) => Some(ActorId(a)),
                None => None,
            },
            source_type,
            source_uri: self.source_uri,
            digest: self.digest,
            chunk_index: self.chunk_index,
            page: self.page,
            path: self.path,
            language: self.language,
            mime_type: self.mime_type,
            title: self.title,
            text: self.text,
            tags: self.tags,
            created_at,
        }
    }
}

/// A chunk stored and read back is the same chunk, whenever it was created in
/// the years 0000 to 9999.
pub proof fn law_payload_round_trip(c: ChunkRecord, p: StoredPayload, now: Timestamp, back: ChunkRecord)
    requires
        payload_of(c, p),
        record_from(p, now, back),
        four_digit_year(c.created_at.seconds),
    ensures
        back.tenant_id == c.tenant_id,
        back.namespace == c.namespace,
        back.asset_id == c.asset_id,
        back.actor_id == c.actor_id,
        back.source_type == c.source_type,
        back.source_uri == c.source_uri,
        back.digest == c.digest,
        back.chunk_index == c.chunk_index,
        back.page == c.page,
        back.path == c.path,
        back.language == c.language,
        back.mime_type == c.mime_type,
        back.title == c.title,
        back.text == c.text,
        back.tags@ == c.tags@,
        back.created_at == c.created_at,
{
    crate::domain::law_source_type_round_trip(c.source_type);
}

/// A payload field compared with a value.
#[derive(Debug, Clone, PartialEq, Eq)]
pub struct FieldMatch {
    pub key: String,
    pub value: String,
}

/// One condition of a filter.
#[derive(Debug, Clone, PartialEq, Eq)]
pub enum FilterClause {
    /// The field holds the value.
    Is(FieldMatch),
    /// The field holds one of the values.
    AnyOf(Vec<FieldMatch>),
}

/// Points that meet every clause.
#[derive(Debug, Clone, PartialEq, Eq)]
pub struct ScopeFilter {
    pub must: Vec<FilterClause>,
}

/// A clause as plain texts.
pub enum ClauseSpec {
    Is(Seq<char>, Seq<char>),
    AnyOf(Seq<(Seq<char>, Seq<char>)>),
}

pub open spec fn clause_spec(c: FilterClause) -> ClauseSpec {
    match c {
        FilterClause::Is(m) => ClauseSpec::Is(m.key@, m.value@),
        FilterClause::AnyOf(ms) => ClauseSpec::AnyOf(
            ms@.map_values(|m: FieldMatch| (m.key@, m.value@)),
        ),
    }
}

pub open spec fn filter_spec(f: ScopeFilter) -> Seq<ClauseSpec> {
    f.must@.map_values(|c: FilterClause| clause_spec(c))
}

/// The filter for a scope: its tenant, its namespace, then the single asset,
/// the set of assets, and the source type, each where given.
pub open spec fn scope_clauses(
    scope: Scope,
    single: Option<AssetId>,
    assets: Seq<AssetId>,
    source: Option<SourceType>,
) -> Seq<ClauseSpec> {
    seq![
        ClauseSpec::Is("tenant_id"@, scope.tenant_id.0@),
        ClauseSpec::Is("namespace"@, scope.namespace.0@),
    ] + match single {
        Some(a) => seq![ClauseSpec::Is("asset_id"@, a.0@)],
        None => Seq::empty(),
    } + if assets.len() > 0 {
        seq![ClauseSpec::AnyOf(assets.map_values(|a: AssetId| ("asset_id"@, a.0@)))]
    } else {
        Seq::empty()
    } + match source {
        Some(t) => seq![ClauseSpec::Is("source_type"@, source_type_name(t))],
        None => Seq::empty(),
    }
}

fn field_match(key: &str, value: &str) -> (r: FieldMatch)
    ensures
        r.key@ == key@,
        r.value@ == value@,
{
    FieldMatch { key: owned(key), value: owned(value) }
}

/// Builds the filter that confines a read to a scope.
pub fn build_scope_filter(
    scope: &Scope,
    single_asset: Option<&AssetId>,
    asset_ids: &Vec<AssetId>,
    source_type: Option<SourceType>,
) -> (r: ScopeFilter)
    ensures
        filter_spec(r) == scope_clauses(
            *scope,
            match single_asset {
                Some(a) => Some(*a),
                None => None,
            },
            asset_ids@,
            source_type,
        ),
{
    let mut must: Vec<FilterClause> = Vec::new();
    must.push(FilterClause::Is(field_match("tenant_id", scope.tenant_id.0.as_str())));
    must.push(FilterClause::Is(field_match("namespace", scope.namespace.0.as_str())));
    let ghost mut expect: Seq<ClauseSpec> = seq![
        ClauseSpec::Is("tenant_id"@, scope.tenant_id.0@),
        ClauseSpec::Is("namespace"@, scope.namespace.0@),
    ];
    assert(must@.map_values(|c: FilterClause| clause_spec(c)) =~= expect);
    match single_asset {
        Some(a) => {
            must.push(FilterClause::Is(field_match("asset_id", a.0.as_str())));
            proof {
                expect = expect + seq![ClauseSpec::Is("asset_id"@, a.0@)];
            }
        },
        None => {
            proof {
                expect = expect + Seq::<ClauseSpec>::empty();
            }
        },
    }
    assert(must@.map_values(|c: FilterClause| clause_spec(c)) =~= expect);
    if asset_ids.len() > 0 {
        let mut any: Vec<FieldMatch> = Vec::new();
        let mut i: usize = 0;
        while i < asset_ids.len()
            invariant
                i <= asset_ids.len(),
                any@.len() == i,
                any@.map_values(|m: FieldMatch| (m.key@, m.value@)) =~= asset_ids@.take(
                    i as int,
                ).map_values(|a: AssetId| ("asset_id"@, a.0@)),
            decreases asset_ids.len() - i,
        {
            let ghost before = any@;
            any.push(field_match("asset_id", asset_ids[i].0.as_str()));
            assert(asset_ids@.take(i + 1) =~= asset_ids@.take(i as int).push(asset_ids@[i as int]));
            assert(any@ =~= before.push(any@[i as int]));
            assert(any@.map_values(|m: FieldMatch| (m.key@, m.value@)) =~= before.map_values(
                |m: FieldMatch| (m.key@, m.value@),
            ).push(("asset_id"@, asset_ids@[i as int].0@)));
            i += 1;
        }
        assert(asset_ids@.take(asset_ids.len() as int) =~= asset_ids@);
        must.push(FilterClause::AnyOf(any));
        proof {
            expect = expect + seq![
                ClauseSpec::AnyOf(asset_ids@.map_values(|a: AssetId| ("asset_id"@, a.0@))),
            ];
        }
    } else {
        proof {
            expect = expect + Seq::<ClauseSpec>::empty();
        }
    }
    assert(must@.map_values(|c: FilterClause| clause_spec(c)) =~= expect);
    match source_type {
        Some(t) => {
            must.push(FilterClause::Is(field_match("source_type", t.as_str())));
            proof {
                expect = expect + seq![ClauseSpec::Is("source_type"@, source_type_name(t))];
            }
        },
        None => {
            proof {
                expect = expect + Seq::<ClauseSpec>::empty();
            }
        },
    }
    assert(must@.map_values(|c: FilterClause| clause_spec(c)) =~= expect);
    ScopeFilter { must }
}

/// Tenant isolation in storage: every filter the store reads through names
/// the scope's tenant first and its namespace second.
pub proof fn law_filter_confines_scope(
    scope: Scope,
    single: Option<AssetId>,
    assets: Seq<AssetId>,
    source: Option<SourceType>,
)
    ensures
        scope_clauses(scope, single, assets, source).len() >= 2,
        scope_clauses(scope, single, assets, source)[0] == ClauseSpec::Is(
            "tenant_id"@,
            scope.tenant_id.0@,
        ),
        scope_clauses(scope, single, assets, source)[1] == ClauseSpec::Is(
            "namespace"@,
            scope.namespace.0@,
        ),
{
}

/// Reading, deleting or searching one asset touches only that asset: whenever
/// a single asset is given, the filter requires `asset_id` to be that asset,
/// whatever list of assets and source type come with it; with neither, the
/// filter is exactly tenant, namespace and asset.
pub proof fn law_single_asset_is_required(
    scope: Scope,
    asset: AssetId,
    assets: Seq<AssetId>,
    source: Option<SourceType>,
)
    ensures
        scope_clauses(scope, Some(asset), assets, source).contains(
            ClauseSpec::Is("asset_id"@, asset.0@),
        ),
        scope_clauses(scope, Some(asset), Seq::empty(), None) == seq![
            ClauseSpec::Is("tenant_id"@, scope.tenant_id.0@),
            ClauseSpec::Is("namespace"@, scope.namespace.0@),
            ClauseSpec::Is("asset_id"@, asset.0@),
        ],
{
    let c = scope_clauses(scope, Some(asset), assets, source);
    assert(c[2] == ClauseSpec::Is("asset_id"@, asset.0@));
    assert(scope_clauses(scope, Some(asset), Seq::empty(), None) =~= seq![
        ClauseSpec::Is("tenant_id"@, scope.tenant_id.0@),
        ClauseSpec::Is("namespace"@, scope.namespace.0@),
        ClauseSpec::Is("asset_id"@, asset.0@),
    ]);
}

/// Re-storing a chunk overwrites its point: two chunks with the same tenant,
/// namespace, asset, position and digest get the same point identifier.
pub proof fn law_point_identity_is_stable(a: ChunkRecord, b: ChunkRecord)
    requires
        a.tenant_id == b.tenant_id,
        a.namespace == b.namespace,
        a.asset_id == b.asset_id,
        a.chunk_index == b.chunk_index,
        a.digest == b.digest,
    ensures
        point_id_of(a) == point_id_of(b),
{
}

/// Whether paging through stored points goes on after a page: only when the
/// page held points and the store named where the next page starts.
pub fn scroll_continues(page_len: usize, has_next_page: bool) -> (r: bool)
    ensures
        r == (page_len > 0 && has_next_page),
{
    page_len > 0 && has_next_page
}

/// Refuses a search without a query vector.
pub fn check_query_vector(len: usize) -> (r: Result<(), CoreError>)
    ensures
        r is Ok <==> len > 0,
        r matches Err(e) ==> e@ == Fault::Validation("query_vector cannot be empty"@),
{
    if len == 0 {
        return Err(CoreError::Validation("query_vector cannot be empty".to_owned()));
    }
    Ok(())
}

/// A point to write: its identifier and payload.
#[derive(Debug, Clone, PartialEq, Eq)]
pub struct PointPlan {
    pub id: String,
    pub payload: StoredPayload,
}

/// Why the chunk with an embedding of `len` numbers cannot be written, if it cannot.
pub open spec fn point_fault(c: ChunkRecord, len: usize) -> Option<Fault> {
    if len == 0 {
        Some(Fault::Validation("chunk.embedding cannot be empty when upserting to qdrant"@))
    } else if rfc3339_text(c.created_at.seconds, c.created_at.nanos) is None {
        Some(payload_failure())
    } else {
        None
    }
}

/// The identifier of a chunk's point.
pub open spec fn point_id_of(c: ChunkRecord) -> Seq<char> {
    uuid_v5_oid_text(
        encode_utf8(point_seed(c.tenant_id.0@, c.namespace.0@, c.asset_id.0@, c.chunk_index, c.digest@)),
    )
}

/// The points to write for chunks whose embeddings have the given lengths, in
/// order; the first chunk that cannot be written refuses the whole write.
pub fn plan_points(chunks: &Vec<ChunkRecord>, embedding_lens: &Vec<usize>) -> (r: Result<Vec<PointPlan>, CoreError>)
    requires
        chunks@.len() == embedding_lens@.len(),
    ensures
        match r {
            Ok(points) => {
                &&& points@.len() == chunks@.len()
                &&& forall|i: int| 0 <= i < chunks@.len() ==> {
                    &&& point_fault(chunks@[i], embedding_lens@[i]) is None
                    &&& (#[trigger] points@[i]).id@ == point_id_of(chunks@[i])
                    &&& payload_of(chunks@[i], points@[i].payload)
                }
            },
            Err(e) => exists|i: int|
                0 <= i < chunks@.len() && #[trigger] point_fault(chunks@[i], embedding_lens@[i]) == Some(e@)
                    && forall|j: int| 0 <= j < i ==> point_fault(chunks@[j], embedding_lens@[j]) is None,
        },
{
    let mut points: Vec<PointPlan> = Vec::new();
    let mut i: usize = 0;
    while i < chunks.len()
        invariant
            chunks@.len() == embedding_lens@.len(),
            i <= chunks@.len(),
            points@.len() == i,
            forall|j: int| 0 <= j < i ==> {
                &&& point_fault(chunks@[j], embedding_lens@[j]) is None
                &&& (#[trigger] points@[j]).id@ == point_id_of(chunks@[j])
                &&& payload_of(chunks@[j], points@[j].payload)
            },
        decreases chunks.len() - i,
    {
        let c = &chunks[i];
        assert forall|j: int| 0 <= j < i implies #[trigger] point_fault(
            chunks@[j],
            embedding_lens@[j],
        ) is None by {
            assert(points@[j].id@ == point_id_of(chunks@[j]));
        }
        if embedding_lens[i] == 0 {
            let e = CoreError::Validation(
                "chunk.embedding cannot be empty when upserting to qdrant".to_owned(),
            );
            assert(point_fault(chunks@[i as int], embedding_lens@[i as int]) == Some(e@));
            return Err(e);
        }
        let payload = match StoredPayload::from_chunk(c) {
            Ok(p) => p,
            Err(e) => {
                assert(point_fault(chunks@[i as int], embedding_lens@[i as int]) == Some(e@));
                return Err(e);
            },
        };
        let id = point_id(
            c.tenant_id.0.as_str(),
            c.namespace.0.as_str(),
            c.asset_id.0.as_str(),
            c.chunk_index,
            c.digest.as_str(),
        );
        points.push(PointPlan { id, payload });
        i += 1;
    }
    Ok(points)
}

/// Lexicographic order of texts by character code (the order of their UTF-8 bytes).
pub open spec fn text_before(a: Seq<char>, b: Seq<char>) -> bool
    decreases a.len(),
{
    if a.len() == 0 {
        b.len() > 0
    } else if b.len() == 0 {
        false
    } else if a[0] == b[0] {
        text_before(a.drop_first(), b.drop_first())
    } else {
        (a[0] as u32) < (b[0] as u32)
    }
}

proof fn lemma_text_order_total(a: Seq<char>, b: Seq<char>)
    ensures
        text_before(a, b) || text_before(b, a) || a == b,
        !(text_before(a, b) && text_before(b, a)),
        !text_before(a, a),
    decreases a.len(),
{
    if a.len() > 0 && b.len() > 0 && a[0] == b[0] {
        lemma_text_order_total(a.drop_first(), b.drop_first());
        if a.drop_first() == b.drop_first() {
            assert(a =~= seq![a[0]] + a.drop_first());
            assert(b =~= seq![b[0]] + b.drop_first());
        }
    } else if a.len() > 0 && b.len() > 0 {
        vstd::utf8::char_u32_cast(a[0], a[0] as u32);
        vstd::utf8::char_u32_cast(b[0], b[0] as u32);
        assert((a[0] as u32) != (b[0] as u32));
    } else if a.len() == 0 && b.len() == 0 {
        assert(a =~= b);
    }
    if a.len() > 0 {
        lemma_text_order_total(a.drop_first(), a.drop_first());
    }
}

proof fn lemma_text_order_transitive(a: Seq<char>, b: Seq<char>, c: Seq<char>)
    requires
        text_before(a, b),
        text_before(b, c),
    ensures
        text_before(a, c),
    decreases a.len(),
{
    if a.len() > 0 && b.len() > 0 && c.len() > 0 && a[0] == b[0] && b[0] == c[0] {
        lemma_text_order_transitive(a.drop_first(), b.drop_first(), c.drop_first());
    }
}

/// Whether `a` comes before `b` in character-code order.
pub fn text_is_before(a: &str, b: &str) -> (r: bool)
    ensures
        r == text_before(a@, b@),
{
    let x = crate::text::chars_of(a);
    let y = crate::text::chars_of(b);
    let mut i: usize = 0;
    assert(a@.skip(0) =~= a@ && b@.skip(0) =~= b@);
    while i < x.len() && i < y.len() && x[i] == y[i]
        invariant
            x@ == a@,
            y@ == b@,
            i <= x.len(),
            i <= y.len(),
            text_before(a@, b@) == text_before(a@.skip(i as int), b@.skip(i as int)),
        decreases x.len() - i,
    {
        proof {
            let p = a@.skip(i as int);
            let q = b@.skip(i as int);
            assert(p.drop_first() =~= a@.skip(i + 1));
            assert(q.drop_first() =~= b@.skip(i + 1));
        }
        i += 1;
    }
    proof {
        let p = a@.skip(i as int);
        let q = b@.skip(i as int);
        if i < x.len() && i < y.len() {
            assert(p[0] == x@[i as int] && q[0] == y@[i as int]);
        }
    }
    if i == x.len() {
        i < y.len()
    } else if i == y.len() {
        false
    } else {
        (x[i] as u32) < (y[i] as u32)
    }
}

/// How many times `x` occurs in `s`.
pub open spec fn occurrences(s: Seq<Seq<char>>, x: Seq<char>) -> nat
    decreases s.len(),
{
    if s.len() == 0 {
        0
    } else {
        occurrences(s.drop_last(), x) + if s.last() == x { 1nat } else { 0nat }
    }
}

/// The summary of stored points by asset: each asset that occurs once, in
/// character-code order of its name, with the number of its points.
pub open spec fn summarizes(ids: Seq<Seq<char>>, r: Seq<AssetSummary>) -> bool {
    &&& forall|i: int, j: int|
        0 <= i < j < r.len() ==> text_before((#[trigger] r[i]).asset_id.0@, (#[trigger] r[j]).asset_id.0@)
    &&& forall|i: int|
        0 <= i < r.len() ==> (#[trigger] r[i]).chunk_count == occurrences(ids, r[i].asset_id.0@)
            && r[i].chunk_count >= 1
    &&& forall|k: int|
        0 <= k < ids.len() ==> exists|i: int| 0 <= i < r.len() && (#[trigger] r[i]).asset_id.0@ == #[trigger] ids[k]
}

pub open spec fn texts_of(ids: Seq<String>) -> Seq<Seq<char>> {
    ids.map_values(|s: String| s@)
}

/// Counts the stored points of each asset, given the asset of every point.
pub fn summarize_assets(ids: Vec<String>) -> (r: Vec<AssetSummary>)
    ensures
        summarizes(texts_of(ids@), r@),
{
    let ghost all = texts_of(ids@);
    let mut out: Vec<AssetSummary> = Vec::new();
    let mut k: usize = 0;
    while k < ids.len()
        invariant
            k <= ids.len(),
            all == texts_of(ids@),
            out@.len() <= k,
            summarizes(all.take(k as int), out@),
        decreases ids.len() - k,
    {
        let ghost seen = all.take(k as int);
        let ghost next = all.take(k + 1);
        assert(next.drop_last() =~= seen);
        assert(next.last() == ids@[k as int]@);
        let id = &ids[k];
        let mut p: usize = 0;
        while p < out.len() && text_is_before(out[p].asset_id.0.as_str(), id.as_str())
            invariant
                p <= out@.len(),
                forall|m: int| 0 <= m < p ==> text_before((#[trigger] out@[m]).asset_id.0@, id@),
            decreases out.len() - p,
        {
            p += 1;
        }
        let ghost before = out@;
        proof {
            assert forall|x: Seq<char>| occurrences(next, x) == occurrences(seen, x) + if x == id@ {
                1nat
            } else {
                0nat
            } by {}
        }
        if p < out.len() && out[p].asset_id.0.eq(id) {
            proof {
                lemma_occurrences_bound(seen, id@);
                assert(out@[p as int].chunk_count == occurrences(seen, out@[p as int].asset_id.0@));
            }
            let count = out[p].chunk_count + 1;
            let updated = AssetSummary { asset_id: out[p].asset_id.duplicate(), chunk_count: count };
            out.set(p, updated);
            proof {
                assert forall|i: int| 0 <= i < out@.len() implies (#[trigger] out@[i]).asset_id
                    == before[i].asset_id by {}
                assert forall|i: int, j: int| 0 <= i < j < out@.len() implies text_before(
                    (#[trigger] out@[i]).asset_id.0@,
                    (#[trigger] out@[j]).asset_id.0@,
                ) by {
                    assert(before[i].asset_id == out@[i].asset_id);
                    assert(before[j].asset_id == out@[j].asset_id);
                }
                assert forall|i: int| 0 <= i < out@.len() implies (#[trigger] out@[i]).chunk_count
                    == occurrences(next, out@[i].asset_id.0@) && out@[i].chunk_count >= 1 by {
                    if i != p {
                        assert(before[i].asset_id == out@[i].asset_id);
                        assert(before[i].chunk_count == out@[i].chunk_count);
                        if before[i].asset_id.0@ == id@ {
                            lemma_text_order_total(before[i].asset_id.0@, before[p as int].asset_id.0@);
                            if i < p {
                                assert(text_before(before[i].asset_id.0@, before[p as int].asset_id.0@));
                            } else {
                                assert(text_before(before[p as int].asset_id.0@, before[i].asset_id.0@));
                            }
                        }
                    }
                }
                assert forall|m: int| 0 <= m < next.len() implies exists|i: int|
                    0 <= i < out@.len() && (#[trigger] out@[i]).asset_id.0@ == #[trigger] next[m] by {
                    if m < seen.len() {
                        assert(next[m] == seen[m]);
                        let i = choose|i: int| 0 <= i < before.len() && (#[trigger] before[i]).asset_id.0@ == seen[m];
                        assert(out@[i].asset_id == before[i].asset_id);
                    } else {
                        assert(out@[p as int].asset_id.0@ == next[m]);
                    }
                }
            }
        } else {
            let entry = AssetSummary { asset_id: AssetId(id.clone()), chunk_count: 1 };
            proof {
                if p < out@.len() {
                    lemma_text_order_total(out@[p as int].asset_id.0@, id@);
                }
            }
            out.insert(p, entry);
            proof {
                assert(out@ =~= before.insert(p as int, entry));
                assert forall|i: int, j: int| 0 <= i < j < out@.len() implies text_before(
                    (#[trigger] out@[i]).asset_id.0@,
                    (#[trigger] out@[j]).asset_id.0@,
                ) by {
                    if j < p {
                        assert(out@[i] == before[i] && out@[j] == before[j]);
                    } else if j == p {
                        assert(out@[i] == before[i]);
                    } else if i == p {
                        assert(out@[j] == before[j - 1]);
                        if j - 1 > p {
                            assert(text_before(before[p as int].asset_id.0@, before[j - 1].asset_id.0@));
                            lemma_text_order_transitive(id@, before[p as int].asset_id.0@, before[j - 1].asset_id.0@);
                        }
                    } else if i < p {
                        assert(out@[i] == before[i] && out@[j] == before[j - 1]);
                        if i < j - 1 {
                            assert(text_before(before[i].asset_id.0@, before[j - 1].asset_id.0@));
                        } else {
                            assert(text_before(before[i].asset_id.0@, before[p as int].asset_id.0@));
                        }
                    } else {
                        assert(out@[i] == before[i - 1] && out@[j] == before[j - 1]);
                    }
                }
                assert forall|i: int| 0 <= i < out@.len() implies (#[trigger] out@[i]).chunk_count
                    == occurrences(next, out@[i].asset_id.0@) && out@[i].chunk_count >= 1 by {
                    if i == p {
                        assert(occurrences(seen, id@) == 0) by {
                            if occurrences(seen, id@) > 0 {
                                lemma_occurs(seen, id@);
                                let m = choose|m: int| 0 <= m < seen.len() && seen[m] == id@;
                                let q = choose|q: int| 0 <= q < before.len() && (#[trigger] before[q]).asset_id.0@ == seen[m];
                                if q < p {
                                    assert(text_before(before[q].asset_id.0@, id@));
                                    lemma_text_order_total(id@, id@);
                                } else {
                                    if q > p {
                                        assert(text_before(before[p as int].asset_id.0@, before[q].asset_id.0@));
                                        lemma_text_order_total(before[p as int].asset_id.0@, id@);
                                        lemma_text_order_total(id@, before[p as int].asset_id.0@);
                                        if before[p as int].asset_id.0@ != id@ {
                                            lemma_text_order_transitive(id@, before[p as int].asset_id.0@, before[q].asset_id.0@);
                                        }
                                    }
                                    lemma_text_order_total(id@, id@);
                                }
                            }
                        }
                    } else {
                        let b = if i < p { before[i] } else { before[i - 1] };
                        assert(out@[i] == b);
                        if b.asset_id.0@ == id@ {
                            if i < p {
                                lemma_text_order_total(id@, id@);
                            } else {
                                if i - 1 > p {
                                    assert(text_before(before[p as int].asset_id.0@, b.asset_id.0@));
                                    lemma_text_order_total(before[p as int].asset_id.0@, id@);
                                    if before[p as int].asset_id.0@ != id@ {
                                        lemma_text_order_transitive(id@, before[p as int].asset_id.0@, id@);
                                    }
                                }
                                lemma_text_order_total(id@, id@);
                            }
                        }
                    }
                }
                assert forall|m: int| 0 <= m < next.len() implies exists|i: int|
                    0 <= i < out@.len() && (#[trigger] out@[i]).asset_id.0@ == #[trigger] next[m] by {
                    if m < seen.len() {
                        assert(next[m] == seen[m]);
                        let q = choose|q: int| 0 <= q < before.len() && (#[trigger] before[q]).asset_id.0@ == seen[m];
                        if q < p {
                            assert(out@[q] == before[q]);
                        } else {
                            assert(out@[q + 1] == before[q]);
                        }
                    } else {
                        assert(out@[p as int].asset_id.0@ == next[m]);
                    }
                }
            }
        }
        k += 1;
    }
    assert(all.take(ids@.len() as int) =~= all);
    out
}

/// The number of points a summary accounts for.
pub open spec fn total_chunks(r: Seq<AssetSummary>) -> nat
    decreases r.len(),
{
    if r.len() == 0 {
        0
    } else {
        total_chunks(r.drop_last()) + r.last().chunk_count as nat
    }
}

spec fn summary_names(r: Seq<AssetSummary>) -> Seq<Seq<char>> {
    r.map_values(|a: AssetSummary| a.asset_id.0@)
}

spec fn sum_occurrences(names: Seq<Seq<char>>, ids: Seq<Seq<char>>) -> nat
    decreases names.len(),
{
    if names.len() == 0 {
        0
    } else {
        sum_occurrences(names.drop_last(), ids) + occurrences(ids, names.last())
    }
}

spec fn distinct_names(names: Seq<Seq<char>>) -> bool {
    forall|i: int, j: int| 0 <= i < j < names.len() ==> names[i] != names[j]
}

/// Listing assets accounts for every stored point exactly once: the counts of
/// a summary add up to the number of points it summarizes.
pub proof fn law_summary_counts_every_point(ids: Seq<Seq<char>>, r: Seq<AssetSummary>)
    requires
        summarizes(ids, r),
    ensures
        total_chunks(r) == ids.len(),
{
    lemma_total_is_sum(r, ids);
    let names = summary_names(r);
    assert forall|i: int, j: int| 0 <= i < j < names.len() implies names[i] != names[j] by {
        assert(text_before(r[i].asset_id.0@, r[j].asset_id.0@));
        lemma_text_order_total(r[i].asset_id.0@, r[j].asset_id.0@);
    }
    assert forall|k: int| 0 <= k < ids.len() implies names.contains(ids[k]) by {
        let i = choose|i: int| 0 <= i < r.len() && (#[trigger] r[i]).asset_id.0@ == #[trigger] ids[k];
        assert(names[i] == ids[k]);
    }
    lemma_sum_covers(names, ids);
}

proof fn lemma_total_is_sum(r: Seq<AssetSummary>, ids: Seq<Seq<char>>)
    requires
        forall|i: int| 0 <= i < r.len() ==> (#[trigger] r[i]).chunk_count == occurrences(ids, r[i].asset_id.0@),
    ensures
        total_chunks(r) == sum_occurrences(summary_names(r), ids),
    decreases r.len(),
{
    if r.len() > 0 {
        let p = r.drop_last();
        assert forall|i: int| 0 <= i < p.len() implies (#[trigger] p[i]).chunk_count == occurrences(
            ids,
            p[i].asset_id.0@,
        ) by {
            assert(p[i] == r[i]);
        }
        lemma_total_is_sum(p, ids);
        assert(summary_names(r).drop_last() =~= summary_names(p));
        assert(r[r.len() - 1] == r.last());
        assert(summary_names(r).last() == r.last().asset_id.0@);
    }
}

proof fn lemma_sum_empty(names: Seq<Seq<char>>)
    ensures
        sum_occurrences(names, Seq::empty()) == 0,
    decreases names.len(),
{
    if names.len() > 0 {
        lemma_sum_empty(names.drop_last());
    }
}

proof fn lemma_sum_push(names: Seq<Seq<char>>, ids: Seq<Seq<char>>, x: Seq<char>)
    ensures
        sum_occurrences(names, ids.push(x)) == sum_occurrences(names, ids) + occurrences(names, x),
    decreases names.len(),
{
    if names.len() > 0 {
        lemma_sum_push(names.drop_last(), ids, x);
        assert(ids.push(x).drop_last() =~= ids);
        assert(ids.push(x).last() == x);
    }
}

proof fn lemma_absent(names: Seq<Seq<char>>, x: Seq<char>)
    requires
        !names.contains(x),
    ensures
        occurrences(names, x) == 0,
    decreases names.len(),
{
    if names.len() > 0 {
        let p = names.drop_last();
        assert(names[names.len() - 1] == names.last());
        assert forall|i: int| 0 <= i < p.len() implies p[i] != x by {
            assert(p[i] == names[i]);
        }
        lemma_absent(p, x);
    }
}

proof fn lemma_occurs_once(names: Seq<Seq<char>>, x: Seq<char>)
    requires
        distinct_names(names),
        names.contains(x),
    ensures
        occurrences(names, x) == 1,
    decreases names.len(),
{
    let p = names.drop_last();
    let n = names.len() - 1;
    assert(names[n] == names.last());
    if names.last() == x {
        assert forall|i: int| 0 <= i < p.len() implies p[i] != x by {
            assert(p[i] == names[i]);
        }
        lemma_absent(p, x);
    } else {
        let i = choose|i: int| 0 <= i < names.len() && names[i] == x;
        assert(i < n);
        assert(p[i] == x);
        assert forall|a: int, b: int| 0 <= a < b < p.len() implies p[a] != p[b] by {
            assert(p[a] == names[a] && p[b] == names[b]);
        }
        lemma_occurs_once(p, x);
    }
}

proof fn lemma_sum_covers(names: Seq<Seq<char>>, ids: Seq<Seq<char>>)
    requires
        distinct_names(names),
        forall|k: int| 0 <= k < ids.len() ==> names.contains(#[trigger] ids[k]),
    ensures
        sum_occurrences(names, ids) == ids.len(),
    decreases ids.len(),
{
    if ids.len() == 0 {
        assert(ids =~= Seq::<Seq<char>>::empty());
        lemma_sum_empty(names);
    } else {
        let p = ids.drop_last();
        let x = ids.last();
        assert(p.push(x) =~= ids);
        assert forall|k: int| 0 <= k < p.len() implies names.contains(#[trigger] p[k]) by {
            assert(p[k] == ids[k]);
        }
        lemma_sum_covers(names, p);
        lemma_sum_push(names, p, x);
        assert(ids[ids.len() - 1] == x);
        lemma_occurs_once(names, x);
    }
}

proof fn lemma_occurrences_bound(s: Seq<Seq<char>>, x: Seq<char>)
    ensures
        occurrences(s, x) <= s.len(),
    decreases s.len(),
{
    if s.len() > 0 {
        lemma_occurrences_bound(s.drop_last(), x);
    }
}

proof fn lemma_occurs(s: Seq<Seq<char>>, x: Seq<char>)
    requires
        occurrences(s, x) > 0,
    ensures
        exists|m: int| 0 <= m < s.len() && s[m] == x,
    decreases s.len(),
{
    if s.last() == x {
        assert(s[s.len() - 1] == x);
    } else {
        lemma_occurs(s.drop_last(), x);
        let m = choose|m: int| 0 <= m < s.drop_last().len() && s.drop_last()[m] == x;
        assert(s[m] == x);
    }
}

} // verus!
