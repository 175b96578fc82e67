//! The legacy (LibreChat-compatible) front end's rules: how its requests map
//! onto the canonical services, how uploads are read, and what its replies hold.

use vstd::prelude::*;
use vstd::utf8::{decode_utf8, valid_utf8};
use crate::domain::{
    AssetId, BatchQueryRequest, ChunkRecord, ExtractRequest, IngestRequest, Namespace,
    QueryRequest, RequestContext, Scope, SourceType, TenantId, duplicate_text, source_type_name,
};
use crate::http::{
    ApiError, RequestHeaders, asset_ids_of, bad_request, context_for, context_of, first_of,
    first_present, has_content, into_asset_ids, k_or_default, request_id_of,
};
use crate::text::{is_blank, is_blank_seq, owned};

verus! {

/// The defaults a legacy deployment is configured with
/// (`LEGACY_DEFAULT_TENANT`, `LEGACY_DEFAULT_NAMESPACE`).
#[derive(Debug, Clone, PartialEq, Eq)]
pub struct LegacyDefaults {
    pub tenant: Option<String>,
    pub namespace: Option<String>,
}

/// The scope of a legacy request: the header's tenant, else the configured
/// one, else `public`; the header's namespace, else the configured one, else
/// `librechat`.
pub open spec fn legacy_scope_of(headers: RequestHeaders, defaults: LegacyDefaults, scope: Scope) -> bool {
    &&& scope.tenant_id.0@ == first_of(headers.tenant_id, defaults.tenant, "public"@)
    &&& scope.namespace.0@ == first_of(headers.namespace, defaults.namespace, "librechat"@)
}

/// Headers name a legacy request's scope first: a tenant or namespace header
/// is the request's, whatever the deployment's defaults; a default is used
/// only when its header is absent; `public` and `librechat` only when neither is set.
pub proof fn law_legacy_headers_win(headers: RequestHeaders, defaults: LegacyDefaults, scope: Scope)
    requires
        legacy_scope_of(headers, defaults, scope),
    ensures
        headers.tenant_id matches Some(t) ==> scope.tenant_id.0@ == t@,
        headers.namespace matches Some(n) ==> scope.namespace.0@ == n@,
        headers.tenant_id is None ==> (defaults.tenant matches Some(t) ==> scope.tenant_id.0@ == t@),
        headers.namespace is None ==> (defaults.namespace matches Some(n) ==> scope.namespace.0@
            == n@),
        headers.tenant_id is None && defaults.tenant is None ==> scope.tenant_id.0@ == "public"@,
        headers.namespace is None && defaults.namespace is None ==> scope.namespace.0@
            == "librechat"@,
{
}

pub fn legacy_scope(headers: &RequestHeaders, defaults: &LegacyDefaults) -> (r: Scope)
    ensures
        legacy_scope_of(*headers, *defaults, r),
{
    let tenant = first_present(
        duplicate_text(&headers.tenant_id),
        duplicate_text(&defaults.tenant),
        "public",
    );
    let namespace = first_present(
        duplicate_text(&headers.namespace),
        duplicate_text(&defaults.namespace),
        "librechat",
    );
    Scope { tenant_id: TenantId(tenant), namespace: Namespace(namespace) }
}

/// The actor of a legacy request: the body's entity, else the header's actor.
pub open spec fn legacy_actor_of(entity_id: Option<String>, headers: RequestHeaders) -> Option<String> {
    match entity_id {
        Some(e) => Some(e),
        None => headers.actor_id,
    }
}

pub fn legacy_actor(entity_id: &Option<String>, headers: &RequestHeaders) -> (r: Option<String>)
    ensures
        r == legacy_actor_of(*entity_id, *headers),
{
    match entity_id {
        Some(e) => Some(e.clone()),
        None => duplicate_text(&headers.actor_id),
    }
}

/// The context of a legacy request in `scope`.
pub fn legacy_ctx(headers: &RequestHeaders, scope: &Scope, actor: Option<String>, fresh_request_id: String) -> (r: RequestContext)
    ensures
        context_of(r, *scope, actor, request_id_of(*headers, fresh_request_id)),
{
    let rid = first_present(duplicate_text(&headers.request_id), None, fresh_request_id.as_str());
    context_for(scope, actor, rid)
}

/// The body of `POST /query`.
#[derive(Debug, Clone, PartialEq, Eq)]
pub struct LegacyQueryBody {
    pub query: String,
    pub file_id: String,
    pub k: Option<usize>,
    pub entity_id: Option<String>,
}

/// The body of `POST /query_multiple`.
#[derive(Debug, Clone, PartialEq, Eq)]
pub struct LegacyQueryMultipleBody {
    pub query: String,
    pub file_ids: Vec<String>,
    pub k: Option<usize>,
    pub entity_id: Option<String>,
}

/// A legacy query as the canonical service sees it, and the actor that the
/// reply's metadata falls back on.
pub struct LegacyQuery {
    pub ctx: RequestContext,
    pub request: QueryRequest,
    pub actor: Option<String>,
}

pub struct LegacyBatchQuery {
    pub ctx: RequestContext,
    pub request: BatchQueryRequest,
    pub actor: Option<String>,
}

/// `POST /query`: a blank query is refused; otherwise the legacy file becomes
/// the asset searched, in the legacy scope, with `k` defaulting to four.
pub fn translate_legacy_query(
    body: LegacyQueryBody,
    headers: &RequestHeaders,
    defaults: &LegacyDefaults,
    fresh_request_id: String,
) -> (r: Result<LegacyQuery, ApiError>)
    ensures
        is_blank_seq(body.query@) ==> (r matches Err(e) && e.status == 400 && e.message@
            == "query cannot be empty"@),
        !is_blank_seq(body.query@) ==> (r matches Ok(q) && {
            &&& legacy_scope_of(*headers, *defaults, q.request.scope)
            &&& q.actor == legacy_actor_of(body.entity_id, *headers)
            &&& context_of(q.ctx, q.request.scope, q.actor, request_id_of(*headers, fresh_request_id))
            &&& q.request.query == body.query
            &&& q.request.asset_id == Some(AssetId(body.file_id))
            &&& q.request.k == k_or_default(body.k)
        }),
{
    if is_blank(body.query.as_str()) {
        return Err(bad_request("query cannot be empty"));
    }
    let scope = legacy_scope(headers, defaults);
    let actor = legacy_actor(&body.entity_id, headers);
    let ctx = legacy_ctx(headers, &scope, duplicate_text(&actor), fresh_request_id);
    let k = match body.k {
        Some(v) => v,
        None => 4,
    };
    Ok(LegacyQuery {
        ctx,
        request: QueryRequest { scope, query: body.query, asset_id: Some(AssetId(body.file_id)), k },
        actor,
    })
}

/// `POST /query_multiple`: a blank query or an empty file list is refused;
/// otherwise the files become the assets searched, in the legacy scope.
pub fn translate_legacy_query_multiple(
    body: LegacyQueryMultipleBody,
    headers: &RequestHeaders,
    defaults: &LegacyDefaults,
    fresh_request_id: String,
) -> (r: Result<LegacyBatchQuery, ApiError>)
    ensures
        is_blank_seq(body.query@) ==> (r matches Err(e) && e.status == 400 && e.message@
            == "query cannot be empty"@),
        !is_blank_seq(body.query@) && body.file_ids@.len() == 0 ==> (r matches Err(e) && e.status
            == 400 && e.message@ == "file_ids cannot be empty"@),
        !is_blank_seq(body.query@) && body.file_ids@.len() > 0 ==> (r matches Ok(q) && {
            &&& legacy_scope_of(*headers, *defaults, q.request.scope)
            &&& q.actor == legacy_actor_of(body.entity_id, *headers)
            &&& context_of(q.ctx, q.request.scope, q.actor, request_id_of(*headers, fresh_request_id))
            &&& q.request.query == body.query
            &&& q.request.asset_ids@ == asset_ids_of(body.file_ids@)
            &&& q.request.k == k_or_default(body.k)
        }),
{
    if is_blank(body.query.as_str()) {
        return Err(bad_request("query cannot be empty"));
    }
    if body.file_ids.len() == 0 {
        return Err(bad_request("file_ids cannot be empty"));
    }
    let scope = legacy_scope(headers, defaults);
    let actor = legacy_actor(&body.entity_id, headers);
    let ctx = legacy_ctx(headers, &scope, duplicate_text(&actor), fresh_request_id);
    let k = match body.k {
        Some(v) => v,
        None => 4,
    };
    let asset_ids = into_asset_ids(body.file_ids);
    Ok(LegacyBatchQuery {
        ctx,
        request: BatchQueryRequest { scope, query: body.query, asset_ids, k },
        actor,
    })
}

/// The metadata a legacy reply gives with each matched chunk.
#[derive(Debug, Clone, PartialEq, Eq)]
pub struct LegacyMetadata {
    pub file_id: String,
    pub user_id: Option<String>,
    pub digest: String,
    pub chunk_index: u32,
    pub source_type: String,
    pub source_uri: Option<String>,
    pub page: Option<u32>,
    pub path: Option<String>,
    pub language: Option<String>,
    pub mime_type: Option<String>,
    pub title: Option<String>,
    pub tags: Vec<String>,
}

/// A matched chunk in legacy form: its text as page content, with metadata.
#[derive(Debug, Clone, PartialEq, Eq)]
pub struct LegacyDocument {
    pub page_content: String,
    pub metadata: LegacyMetadata,
}

/// The legacy form of a chunk: the asset as file, the chunk's actor as user
/// (else the caller's), and the chunk's other metadata as it is.
pub open spec fn legacy_document_of(c: ChunkRecord, actor: Option<String>, d: LegacyDocument) -> bool {
    &&& d.page_content == c.text
    &&& d.metadata.file_id == c.asset_id.0
    &&& d.metadata.user_id == match c.actor_id {
        Some(a) => Some(a.0),
        None => actor,
    }
    &&& d.metadata.digest == c.digest
    &&& d.metadata.chunk_index == c.chunk_index
    &&& d.metadata.source_type@ == source_type_name(c.source_type)
    &&& d.metadata.source_uri == c.source_uri
    &&& d.metadata.page == c.page
    &&& d.metadata.path == c.path
    &&& d.metadata.language == c.language
    &&& d.metadata.mime_type == c.mime_type
    &&& d.metadata.title == c.title
    &&& d.metadata.tags == c.tags
}

/// A matched chunk in legacy form.
pub fn legacy_document(chunk: ChunkRecord, actor: &Option<String>) -> (r: LegacyDocument)
    ensures
        legacy_document_of(chunk, *actor, r),
{
    let user_id = match chunk.actor_id {
        Some(a) => Some(a.0),
        None => duplicate_text(actor),
    };
    let source_type = owned(chunk.source_type.as_str());
    LegacyDocument {
        page_content: chunk.text,
        metadata: LegacyMetadata {
            file_id: chunk.asset_id.0,
            user_id,
            digest: chunk.digest,
            chunk_index: chunk.chunk_index,
            source_type,
            source_uri: chunk.source_uri,
            page: chunk.page,
            path: chunk.path,
            language: chunk.language,
            mime_type: chunk.mime_type,
            title: chunk.title,
            tags: chunk.tags,
        },
    }
}

/// The body of `POST /local/embed`.
#[derive(Debug, Clone, PartialEq, Eq)]
pub struct LegacyLocalEmbedBody {
    pub file_id: String,
    pub entity_id: Option<String>,
    pub content: Option<String>,
    pub known_type: Option<String>,
    pub path: Option<String>,
}

/// A legacy ingest as the canonical service sees it.
pub struct LegacyIngest {
    pub ctx: RequestContext,
    pub request: IngestRequest,
}

/// `POST /local/embed`: missing or blank content is refused; otherwise the
/// file is ingested as a local file, its path as source and its known type as
/// media type.
pub fn translate_local_embed(
    body: &LegacyLocalEmbedBody,
    headers: &RequestHeaders,
    defaults: &LegacyDefaults,
    fresh_request_id: String,
) -> (r: Result<LegacyIngest, ApiError>)
    ensures
        !has_content(body.content) ==> (r matches Err(e) && e.status == 400 && e.message@
            == "content cannot be empty"@),
        has_content(body.content) ==> (r matches Ok(q) && {
            &&& legacy_scope_of(*headers, *defaults, q.request.scope)
            &&& context_of(
                q.ctx,
                q.request.scope,
                legacy_actor_of(body.entity_id, *headers),
                request_id_of(*headers, fresh_request_id),
            )
            &&& q.request.asset_id == AssetId(body.file_id)
            &&& q.request.source_type == SourceType::LocalFile
            &&& q.request.source_uri == body.path
            &&& q.request.content == body.content
            &&& q.request.mime_type == body.known_type
        }),
{
    let present = match &body.content {
        Some(c) => !is_blank(c.as_str()),
        None => false,
    };
    if !present {
        return Err(bad_request("content cannot be empty"));
    }
    let scope = legacy_scope(headers, defaults);
    let actor = legacy_actor(&body.entity_id, headers);
    let ctx = legacy_ctx(headers, &scope, actor, fresh_request_id);
    Ok(LegacyIngest {
        ctx,
        request: IngestRequest {
            scope,
            asset_id: AssetId(body.file_id.clone()),
            source_type: SourceType::LocalFile,
            source_uri: duplicate_text(&body.path),
            content: duplicate_text(&body.content),
            mime_type: duplicate_text(&body.known_type),
        },
    })
}

/// The reply to a legacy ingest.
#[derive(Debug, Clone, PartialEq, Eq)]
pub struct LegacyEmbedReply {
    pub status: String,
    pub message: String,
    pub file_id: String,
    pub filename: String,
    pub known_type: String,
}

/// The reply to a local ingest of `asset`: success, the asset as file, the
/// path (else the asset) as file name, the known type (else `unknown`).
pub fn local_embed_reply(body: &LegacyLocalEmbedBody, asset: &AssetId) -> (r: LegacyEmbedReply)
    ensures
        r.status@ == "success"@,
        r.message@ == "legacy embed completed"@,
        r.file_id == asset.0,
        r.filename@ == first_of(body.path, None, asset.0@),
        r.known_type@ == first_of(body.known_type, None, "unknown"@),
{
    LegacyEmbedReply {
        status: owned("success"),
        message: owned("legacy embed completed"),
        file_id: asset.0.clone(),
        filename: first_present(duplicate_text(&body.path), None, asset.0.as_str()),
        known_type: first_present(duplicate_text(&body.known_type), None, "unknown"),
    }
}

/// What a legacy multipart upload carried.
#[derive(Debug, Clone, PartialEq, Eq)]
pub struct LegacyUploadPayload {
    pub file_id: Option<String>,
    pub entity_id: Option<String>,
    pub filename: Option<String>,
    pub known_type: Option<String>,
    pub content: Option<String>,
}

/// One part of a multipart upload, as read.
#[derive(Debug, Clone, PartialEq, Eq)]
pub enum UploadField {
    FileId(String),
    EntityId(String),
    KnownType(String),
    /// A file part: its file name, if it has one, and its bytes.
    File { filename: Option<String>, bytes: Vec<u8> },
    /// A part with another name, or none.
    Other,
}

impl LegacyUploadPayload {
    pub fn new() -> (r: Self)
        ensures
            r.file_id is None && r.entity_id is None && r.filename is None && r.known_type is None
                && r.content is None,
    {
        LegacyUploadPayload {
            file_id: None,
            entity_id: None,
            filename: None,
            known_type: None,
            content: None,
        }
    }

    /// Whether a file part is still wanted: only the first file is read.
    pub fn wants_file(&self) -> (r: bool)
        ensures
            r == self.content is None,
    {
        self.content.is_none()
    }

    /// Takes in one part: text parts set their field (a later part replacing
    /// an earlier one); the first file part sets the file name it has and the
    /// content, which must be UTF-8 text; later file parts and parts with other
    /// names change nothing.
    pub fn accept(&mut self, field: UploadField) -> (r: Result<(), ApiError>)
        ensures
            match field {
                UploadField::FileId(t) => r is Ok && *final(self) == LegacyUploadPayload {
                    file_id: Some(t),
                    ..*old(self)
                },
                UploadField::EntityId(t) => r is Ok && *final(self) == LegacyUploadPayload {
                    entity_id: Some(t),
                    ..*old(self)
                },
                UploadField::KnownType(t) => r is Ok && *final(self) == LegacyUploadPayload {
                    known_type: Some(t),
                    ..*old(self)
                },
                UploadField::File { filename, bytes } => if old(self).content is Some {
                    r is Ok && *final(self) == *old(self)
                } else if valid_utf8(bytes@) {
                    &&& r is Ok
                    &&& (final(self).content matches Some(c) && c@ == decode_utf8(bytes@))
                    &&& final(self).filename == match filename {
                        Some(n) => Some(n),
                        None => old(self).filename,
                    }
                    &&& final(self).file_id == old(self).file_id
                    &&& final(self).entity_id == old(self).entity_id
                    &&& final(self).known_type == old(self).known_type
                } else {
                    r matches Err(e) && e.status == 400 && e.message@ == "file must be text"@
                },
                UploadField::Other => r is Ok && *final(self) == *old(self),
            },
    {
        match field {
            UploadField::FileId(t) => {
                self.file_id = Some(t);
                Ok(())
            },
            UploadField::EntityId(t) => {
                self.entity_id = Some(t);
                Ok(())
            },
            UploadField::KnownType(t) => {
                self.known_type = Some(t);
                Ok(())
            },
            UploadField::File { filename, bytes } => {
                if self.content.is_some() {
                    return Ok(());
                }
                match filename {
                    Some(n) => {
                        self.filename = Some(n);
                    },
                    None => {},
                }
                match crate::extract::utf8_decode(bytes) {
                    Some(text) => {
                        self.content = Some(text);
                        Ok(())
                    },
                    None => Err(bad_request("file must be text")),
                }
            },
            UploadField::Other => Ok(()),
        }
    }
}

/// A multipart ingest (`POST /embed`, `POST /embed-upload`): a missing file
/// id, then missing or blank content, is refused; otherwise the file is
/// ingested with the given source type and its known type as media type.
pub fn translate_multipart_ingest(
    payload: &LegacyUploadPayload,
    source_type: SourceType,
    headers: &RequestHeaders,
    defaults: &LegacyDefaults,
    fresh_request_id: String,
) -> (r: Result<LegacyIngest, ApiError>)
    ensures
        payload.file_id is None ==> (r matches Err(e) && e.status == 400 && e.message@
            == "file_id is required"@),
        payload.file_id is Some && !has_content(payload.content) ==> (r matches Err(e) && e.status
            == 400 && e.message@ == "file contents are required"@),
        payload.file_id is Some && has_content(payload.content) ==> (r matches Ok(q) && {
            &&& legacy_scope_of(*headers, *defaults, q.request.scope)
            &&& context_of(
                q.ctx,
                q.request.scope,
                legacy_actor_of(payload.entity_id, *headers),
                request_id_of(*headers, fresh_request_id),
            )
            &&& q.request.asset_id == AssetId(payload.file_id->0)
            &&& q.request.source_type == source_type
            &&& q.request.source_uri is None
            &&& q.request.content == payload.content
            &&& q.request.mime_type == payload.known_type
        }),
{
    let file_id = match &payload.file_id {
        Some(id) => id.clone(),
        None => {
            return Err(bad_request("file_id is required"));
        },
    };
    let present = match &payload.content {
        Some(c) => !is_blank(c.as_str()),
        None => false,
    };
    if !present {
        return Err(bad_request("file contents are required"));
    }
    let scope = legacy_scope(headers, defaults);
    let actor = legacy_actor(&payload.entity_id, headers);
    let ctx = legacy_ctx(headers, &scope, actor, fresh_request_id);
    Ok(LegacyIngest {
        ctx,
        request: IngestRequest {
            scope,
            asset_id: AssetId(file_id),
            source_type,
            source_uri: None,
            content: duplicate_text(&payload.content),
            mime_type: duplicate_text(&payload.known_type),
        },
    })
}

/// The reply to a multipart ingest of `asset`: success, the asset as file,
/// the uploaded file name (else the file id), the known type (else `unknown`).
pub fn multipart_embed_reply(payload: &LegacyUploadPayload, asset: &AssetId) -> (r: LegacyEmbedReply)
    requires
        payload.file_id is Some,
    ensures
        r.status@ == "success"@,
        r.message@ == "legacy embed completed"@,
        r.file_id == asset.0,
        r.filename@ == first_of(payload.filename, payload.file_id, ""@),
        r.known_type@ == first_of(payload.known_type, None, "unknown"@),
{
    LegacyEmbedReply {
        status: owned("success"),
        message: owned("legacy embed completed"),
        file_id: asset.0.clone(),
        filename: first_present(duplicate_text(&payload.filename), duplicate_text(&payload.file_id), ""),
        known_type: first_present(duplicate_text(&payload.known_type), None, "unknown"),
    }
}

/// A legacy extraction as the canonical service sees it.
pub struct LegacyExtract {
    pub ctx: RequestContext,
    pub request: ExtractRequest,
}

/// `POST /text`: an upload without file id or file is refused; otherwise its
/// text is extracted as plain text in the legacy scope.
pub fn translate_text(
    payload: &LegacyUploadPayload,
    headers: &RequestHeaders,
    defaults: &LegacyDefaults,
    fresh_request_id: String,
) -> (r: Result<LegacyExtract, ApiError>)
    ensures
        payload.file_id is None || payload.content is None ==> (r matches Err(e) && e.status == 400
            && e.message@ == "file_id and file are required"@),
        payload.file_id is Some && payload.content is Some ==> (r matches Ok(q) && {
            &&& legacy_scope_of(*headers, *defaults, q.request.scope)
            &&& context_of(
                q.ctx,
                q.request.scope,
                legacy_actor_of(payload.entity_id, *headers),
                request_id_of(*headers, fresh_request_id),
            )
            &&& q.request.source_type == SourceType::Text
            &&& q.request.source_uri is None
            &&& q.request.content == payload.content
        }),
{
    if payload.file_id.is_none() || payload.content.is_none() {
        return Err(bad_request("file_id and file are required"));
    }
    let scope = legacy_scope(headers, defaults);
    let actor = legacy_actor(&payload.entity_id, headers);
    let ctx = legacy_ctx(headers, &scope, actor, fresh_request_id);
    Ok(LegacyExtract {
        ctx,
        request: ExtractRequest {
            scope,
            source_type: SourceType::Text,
            source_uri: None,
            content: duplicate_text(&payload.content),
        },
    })
}

/// The reply to `POST /text`.
#[derive(Debug, Clone, PartialEq, Eq)]
pub struct LegacyTextReply {
    pub text: String,
    pub file_id: String,
    pub filename: String,
    pub known_type: String,
}

/// The reply to `POST /text`: the extracted text, the file id, the uploaded
/// file name (else the file id), the known type (else `unknown`).
pub fn text_reply(payload: &LegacyUploadPayload, text: String) -> (r: LegacyTextReply)
    requires
        payload.file_id is Some,
    ensures
        r.text == text,
        r.file_id == payload.file_id->0,
        r.filename@ == first_of(payload.filename, payload.file_id, ""@),
        r.known_type@ == first_of(payload.known_type, None, "unknown"@),
{
    let file_id = match &payload.file_id {
        Some(f) => f.clone(),
        None => owned(""),
    };
    LegacyTextReply {
        text,
        file_id,
        filename: first_present(duplicate_text(&payload.filename), duplicate_text(&payload.file_id), ""),
        known_type: first_present(duplicate_text(&payload.known_type), None, "unknown"),
    }
}

} // verus!
