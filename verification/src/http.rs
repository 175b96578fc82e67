//! The canonical REST front end's rules: where a request's tenant, namespace
//! and identity come from, which bodies are refused before any service is
//! called, and which HTTP status each service error is answered with.

use vstd::prelude::*;
use crate::domain::{
    ActorId, AssetId, BatchQueryRequest, CoreError, ExtractRequest, IngestRequest, Namespace,
    QueryRequest, RequestContext, Scope, SourceType, TenantId, error_text, source_type_named,
};
use crate::identity::is_uuid_text;
use crate::query::scope_allowed;
use crate::text::{is_blank, is_blank_seq, owned};

verus! {

/// The identity headers of a request (`x-tenant-id`, `x-namespace`,
/// `x-actor-id`, `x-request-id`), each when present and readable as text.
#[derive(Debug, Clone, PartialEq, Eq)]
pub struct RequestHeaders {
    pub tenant_id: Option<String>,
    pub namespace: Option<String>,
    pub actor_id: Option<String>,
    pub request_id: Option<String>,
}

/// A refusal sent back to the caller: an HTTP status and a message.
#[derive(Debug, Clone, PartialEq, Eq)]
pub struct ApiError {
    pub status: u16,
    pub message: String,
}

/// The first of two optional texts that is present, else the fallback.
pub open spec fn first_of(a: Option<String>, b: Option<String>, fallback: Seq<char>) -> Seq<char> {
    match a {
        Some(x) => x@,
        None => match b {
            Some(y) => y@,
            None => fallback,
        },
    }
}

/// The first of two optional texts that is present, else the fallback.
pub fn first_present(a: Option<String>, b: Option<String>, fallback: &str) -> (r: String)
    ensures
        r@ == first_of(a, b, fallback@),
{
    match a {
        Some(x) => x,
        None => match b {
            Some(y) => y,
            None => owned(fallback),
        },
    }
}

/// The context of a request made in `scope`: its tenant, the given actor,
/// no roles, only the scope's namespace allowed, and the given request id.
pub open spec fn context_of(ctx: RequestContext, scope: Scope, actor: Option<String>, request_id: Seq<char>) -> bool {
    &&& ctx.tenant_id == scope.tenant_id
    &&& ctx.actor_id == match actor {
        Some(a) => Some(ActorId(a)),
        None => None::<ActorId>,
    }
    &&& ctx.roles@.len() == 0
    &&& ctx.allowed_namespaces@ == seq![scope.namespace]
    &&& ctx.request_id@ == request_id
}

/// The request context for a request in `scope`.
pub fn context_for(scope: &Scope, actor: Option<String>, request_id: String) -> (r: RequestContext)
    ensures
        context_of(r, *scope, actor, request_id@),
{
    let mut allowed: Vec<Namespace> = Vec::new();
    allowed.push(scope.namespace.duplicate());
    assert(allowed@ =~= seq![scope.namespace]);
    RequestContext {
        tenant_id: scope.tenant_id.duplicate(),
        actor_id: match actor {
            Some(a) => Some(ActorId(a)),
            None => None,
        },
        roles: Vec::new(),
        allowed_namespaces: allowed,
        request_id,
    }
}

/// The scope of a canonical request: the body's tenant, else the header's,
/// else `public`; the body's namespace, else the header's, else `default`.
pub open spec fn api_scope_of(
    body_tenant: Option<String>,
    body_namespace: Option<String>,
    headers: RequestHeaders,
    scope: Scope,
) -> bool {
    &&& scope.tenant_id.0@ == first_of(body_tenant, headers.tenant_id, "public"@)
    &&& scope.namespace.0@ == first_of(body_namespace, headers.namespace, "default"@)
}

/// The request id: the header's, else the freshly made one.
pub open spec fn request_id_of(headers: RequestHeaders, fresh: String) -> Seq<char> {
    first_of(headers.request_id, None, fresh@)
}

fn api_scope(body_tenant: Option<String>, body_namespace: Option<String>, headers: &RequestHeaders) -> (r: Scope)
    ensures
        api_scope_of(body_tenant, body_namespace, *headers, r),
{
    let tenant = first_present(body_tenant, crate::domain::duplicate_text(&headers.tenant_id), "public");
    let namespace = first_present(
        body_namespace,
        crate::domain::duplicate_text(&headers.namespace),
        "default",
    );
    Scope { tenant_id: TenantId(tenant), namespace: Namespace(namespace) }
}

fn request_id(headers: &RequestHeaders, fresh: String) -> (r: String)
    ensures
        r@ == request_id_of(*headers, fresh),
{
    first_present(crate::domain::duplicate_text(&headers.request_id), None, fresh.as_str())
}

/// `uuid::Uuid::now_v7`, written out with `to_string`: a fresh, time-ordered
/// identifier in uuid's hyphenated lowercase form, whose version digit is 7.
/// Which identifier comes out is not stated: it rests on the clock and on chance.
#[verifier::external_body]
fn new_request_id() -> (r: String)
    ensures
        is_uuid_text(r@),
        r@[14] == '7',
{
    uuid::Uuid::now_v7().to_string()
}

/// The id of a request: its `x-request-id` header, else a fresh time-ordered
/// (version 7) UUID.
pub fn request_id_for(headers: &RequestHeaders) -> (r: String)
    ensures
        headers.request_id matches Some(h) ==> r@ == h@,
        headers.request_id is None ==> is_uuid_text(r@) && r@[14] == '7',
{
    match &headers.request_id {
        Some(h) => h.clone(),
        None => new_request_id(),
    }
}

pub fn bad_request(message: &str) -> (r: ApiError)
    ensures
        r.status == 400,
        r.message@ == message@,
{
    ApiError { status: 400, message: owned(message) }
}

/// The body of `POST /v1/query`.
#[derive(Debug, Clone, PartialEq, Eq)]
pub struct QueryBody {
    pub query: String,
    pub k: Option<usize>,
    pub asset_id: Option<String>,
    pub tenant_id: Option<String>,
    pub namespace: Option<String>,
}

/// The body of `POST /v1/query:batch`.
#[derive(Debug, Clone, PartialEq, Eq)]
pub struct QueryBatchBody {
    pub query: String,
    pub k: Option<usize>,
    pub asset_ids: Vec<String>,
    pub tenant_id: Option<String>,
    pub namespace: Option<String>,
}

/// The body of `POST /v1/assets:ingest`.
#[derive(Debug, Clone, PartialEq, Eq)]
pub struct IngestBody {
    pub tenant_id: Option<String>,
    pub namespace: Option<String>,
    pub asset_id: String,
    pub source_type: String,
    pub source_uri: Option<String>,
    pub content: Option<String>,
    pub mime_type: Option<String>,
}

/// The body of `POST /v1/assets:extract`.
#[derive(Debug, Clone, PartialEq, Eq)]
pub struct ExtractBody {
    pub tenant_id: Option<String>,
    pub namespace: Option<String>,
    pub source_type: String,
    pub source_uri: Option<String>,
    pub content: Option<String>,
}

/// `k` as asked, else four.
pub open spec fn k_or_default(k: Option<usize>) -> usize {
    match k {
        Some(v) => v,
        None => 4,
    }
}

/// `POST /v1/query`: a blank query is refused; otherwise the query service is
/// asked in the resolved scope, for the named asset if any, with `k` defaulting
/// to four.
pub fn translate_query(body: QueryBody, headers: &RequestHeaders, fresh_request_id: String) -> (r: Result<(RequestContext, QueryRequest), ApiError>)
    ensures
        is_blank_seq(body.query@) ==> (r matches Err(e) && e.status == 400 && e.message@
            == "query cannot be empty"@),
        !is_blank_seq(body.query@) ==> (r matches Ok((ctx, req)) && {
            &&& api_scope_of(body.tenant_id, body.namespace, *headers, req.scope)
            &&& context_of(ctx, req.scope, headers.actor_id, request_id_of(*headers, fresh_request_id))
            &&& req.query == body.query
            &&& req.asset_id == match body.asset_id {
                Some(a) => Some(AssetId(a)),
                None => None::<AssetId>,
            }
            &&& req.k == k_or_default(body.k)
        }),
{
    if is_blank(body.query.as_str()) {
        return Err(bad_request("query cannot be empty"));
    }
    let scope = api_scope(body.tenant_id, body.namespace, headers);
    let rid = request_id(headers, fresh_request_id);
    let ctx = context_for(&scope, crate::domain::duplicate_text(&headers.actor_id), rid);
    let k = match body.k {
        Some(v) => v,
        None => 4,
    };
    let asset_id = match body.asset_id {
        Some(a) => Some(AssetId(a)),
        None => None,
    };
    Ok((ctx, QueryRequest { scope, query: body.query, asset_id, k }))
}

pub open spec fn asset_ids_of(names: Seq<String>) -> Seq<AssetId> {
    names.map_values(|s: String| AssetId(s))
}

/// Names turned into asset ids, in order.
pub fn into_asset_ids(names: Vec<String>) -> (r: Vec<AssetId>)
    ensures
        r@ == asset_ids_of(names@),
{
    let ghost all = names@;
    let mut r: Vec<AssetId> = Vec::new();
    for name in it: names
        invariant
            it.seq() == all,
            r@ == asset_ids_of(all.take(it.index() as int)),
    {
        let ghost i = it.index();
        r.push(AssetId(name));
        assert(all.take(i + 1) =~= all.take(i as int).push(all[i as int]));
        assert(r@ =~= asset_ids_of(all.take(i + 1)));
    }
    assert(all.take(all.len() as int) =~= all);
    r
}

/// `POST /v1/query:batch`: a blank query or an empty asset list is refused;
/// otherwise the query service is asked in the resolved scope for the listed
/// assets, with `k` defaulting to four.
pub fn translate_query_batch(body: QueryBatchBody, headers: &RequestHeaders, fresh_request_id: String) -> (r: Result<(RequestContext, BatchQueryRequest), ApiError>)
    ensures
        is_blank_seq(body.query@) ==> (r matches Err(e) && e.status == 400 && e.message@
            == "query cannot be empty"@),
        !is_blank_seq(body.query@) && body.asset_ids@.len() == 0 ==> (r matches Err(e) && e.status
            == 400 && e.message@ == "asset_ids cannot be empty"@),
        !is_blank_seq(body.query@) && body.asset_ids@.len() > 0 ==> (r matches Ok((ctx, req)) && {
            &&& api_scope_of(body.tenant_id, body.namespace, *headers, req.scope)
            &&& context_of(ctx, req.scope, headers.actor_id, request_id_of(*headers, fresh_request_id))
            &&& req.query == body.query
            &&& req.asset_ids@ == asset_ids_of(body.asset_ids@)
            &&& req.k == k_or_default(body.k)
        }),
{
    if is_blank(body.query.as_str()) {
        return Err(bad_request("query cannot be empty"));
    }
    if body.asset_ids.len() == 0 {
        return Err(bad_request("asset_ids cannot be empty"));
    }
    let scope = api_scope(body.tenant_id, body.namespace, headers);
    let rid = request_id(headers, fresh_request_id);
    let ctx = context_for(&scope, crate::domain::duplicate_text(&headers.actor_id), rid);
    let k = match body.k {
        Some(v) => v,
        None => 4,
    };
    let asset_ids = into_asset_ids(body.asset_ids);
    Ok((ctx, BatchQueryRequest { scope, query: body.query, asset_ids, k }))
}

/// Whether optional content is present and not blank.
pub open spec fn has_content(content: Option<String>) -> bool {
    match content {
        Some(c) => !is_blank_seq(c@),
        None => false,
    }
}

fn content_present(content: &Option<String>) -> (r: bool)
    ensures
        r == has_content(*content),
{
    match content {
        Some(c) => !is_blank(c.as_str()),
        None => false,
    }
}

/// `POST /v1/assets:ingest`: an unknown source type, then missing or blank
/// content, is refused; otherwise the ingest service is asked in the resolved
/// scope with the body's asset, source and content.
pub fn translate_ingest(body: IngestBody, headers: &RequestHeaders, fresh_request_id: String) -> (r: Result<(RequestContext, IngestRequest), ApiError>)
    ensures
        source_type_named(body.source_type@) is None ==> (r matches Err(e) && e.status == 400
            && e.message@ == "invalid source_type"@),
        source_type_named(body.source_type@) is Some && !has_content(body.content) ==> (r matches Err(
            e,
        ) && e.status == 400 && e.message@ == "content cannot be empty"@),
        source_type_named(body.source_type@) is Some && has_content(body.content) ==> (r matches Ok(
            (ctx, req),
        ) && {
            &&& api_scope_of(body.tenant_id, body.namespace, *headers, req.scope)
            &&& context_of(ctx, req.scope, headers.actor_id, request_id_of(*headers, fresh_request_id))
            &&& req.asset_id == AssetId(body.asset_id)
            &&& Some(req.source_type) == source_type_named(body.source_type@)
            &&& req.source_uri == body.source_uri
            &&& req.content == body.content
            &&& req.mime_type == body.mime_type
        }),
{
    let source_type = match SourceType::parse(body.source_type.as_str()) {
        Some(t) => t,
        None => {
            return Err(bad_request("invalid source_type"));
        },
    };
    if !content_present(&body.content) {
        return Err(bad_request("content cannot be empty"));
    }
    let scope = api_scope(body.tenant_id, body.namespace, headers);
    let rid = request_id(headers, fresh_request_id);
    let ctx = context_for(&scope, crate::domain::duplicate_text(&headers.actor_id), rid);
    Ok(
        (
            ctx,
            IngestRequest {
                scope,
                asset_id: AssetId(body.asset_id),
                source_type,
                source_uri: body.source_uri,
                content: body.content,
                mime_type: body.mime_type,
            },
        ),
    )
}

/// `POST /v1/assets:extract`: an unknown source type, then missing or blank
/// content, is refused; otherwise the extract service is asked in the resolved
/// scope with the body's source and content.
pub fn translate_extract(body: ExtractBody, headers: &RequestHeaders, fresh_request_id: String) -> (r: Result<(RequestContext, ExtractRequest), ApiError>)
    ensures
        source_type_named(body.source_type@) is None ==> (r matches Err(e) && e.status == 400
            && e.message@ == "invalid source_type"@),
        source_type_named(body.source_type@) is Some && !has_content(body.content) ==> (r matches Err(
            e,
        ) && e.status == 400 && e.message@ == "content cannot be empty"@),
        source_type_named(body.source_type@) is Some && has_content(body.content) ==> (r matches Ok(
            (ctx, req),
        ) && {
            &&& api_scope_of(body.tenant_id, body.namespace, *headers, req.scope)
            &&& context_of(ctx, req.scope, headers.actor_id, request_id_of(*headers, fresh_request_id))
            &&& Some(req.source_type) == source_type_named(body.source_type@)
            &&& req.source_uri == body.source_uri
            &&& req.content == body.content
        }),
{
    let source_type = match SourceType::parse(body.source_type.as_str()) {
        Some(t) => t,
        None => {
            return Err(bad_request("invalid source_type"));
        },
    };
    if !content_present(&body.content) {
        return Err(bad_request("content cannot be empty"));
    }
    let scope = api_scope(body.tenant_id, body.namespace, headers);
    let rid = request_id(headers, fresh_request_id);
    let ctx = context_for(&scope, crate::domain::duplicate_text(&headers.actor_id), rid);
    Ok(
        (
            ctx,
            ExtractRequest {
                scope,
                source_type,
                source_uri: body.source_uri,
                content: body.content,
            },
        ),
    )
}

/// The HTTP status a service error is answered with.
pub open spec fn status_of(e: CoreError) -> u16 {
    match e {
        CoreError::Validation(_) => 400,
        CoreError::Unauthorized => 401,
        CoreError::Forbidden => 403,
        CoreError::NotFound => 404,
        CoreError::Provider(_) => 500,
        CoreError::Storage(_) => 500,
        CoreError::Lock(_) => 500,
        CoreError::NotImplemented(_) => 501,
    }
}

/// The answer to a service error: its status and its text.
pub fn error_response(e: &CoreError) -> (r: ApiError)
    ensures
        r.status == status_of(*e),
        r.message@ == error_text(*e),
{
    let status: u16 = match e {
        CoreError::Validation(_) => 400,
        CoreError::Unauthorized => 401,
        CoreError::Forbidden => 403,
        CoreError::NotFound => 404,
        CoreError::Provider(_) | CoreError::Storage(_) | CoreError::Lock(_) => 500,
        CoreError::NotImplemented(_) => 501,
    };
    ApiError { status, message: e.message() }
}

/// The body names the scope first: a tenant or namespace in the body is the
/// request's, whatever the headers say; a header is used only when the body
/// names none; `public` and `default` only when neither does.
pub proof fn law_body_scope_wins(
    body_tenant: Option<String>,
    body_namespace: Option<String>,
    headers: RequestHeaders,
    scope: Scope,
)
    requires
        api_scope_of(body_tenant, body_namespace, headers, scope),
    ensures
        body_tenant matches Some(t) ==> scope.tenant_id.0@ == t@,
        body_namespace matches Some(n) ==> scope.namespace.0@ == n@,
        body_tenant is None ==> (headers.tenant_id matches Some(t) ==> scope.tenant_id.0@ == t@),
        body_namespace is None ==> (headers.namespace matches Some(n) ==> scope.namespace.0@ == n@),
        body_tenant is None && headers.tenant_id is None ==> scope.tenant_id.0@ == "public"@,
        body_namespace is None && headers.namespace is None ==> scope.namespace.0@ == "default"@,
{
}

/// A context built for a scope admits that scope: every request that the front
/// ends translate passes the query service's scope check.
pub proof fn law_context_admits_its_scope(
    ctx: RequestContext,
    scope: Scope,
    actor: Option<String>,
    request_id: Seq<char>,
)
    requires
        context_of(ctx, scope, actor, request_id),
    ensures
        scope_allowed(ctx, scope),
{
    assert(ctx.allowed_namespaces@[0] == scope.namespace);
}

/// Every refusal of the caller's own input is a client error and every
/// failure behind the service a server error.
pub proof fn law_error_classes(e: CoreError)
    ensures
        400 <= status_of(e) < 600,
        (status_of(e) < 500) <==> (e is Validation || e is Unauthorized || e is Forbidden
            || e is NotFound),
{
}

} // verus!
