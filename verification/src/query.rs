//! The rules of the query service: who may search a scope, how many matches
//! a search asks for, and what search a query request turns into.

use vstd::prelude::*;
use crate::domain::{AssetId, BatchQueryRequest, CoreError, Fault, QueryRequest, RequestContext, Scope};
use crate::text::{concat, decimal, decimal_string, is_blank, is_blank_seq};

verus! {

/// The settings that decide how queries are checked: the embedding model
/// name, the number of matches used when a request asks for none, and the
/// most matches a request may ask for.
#[derive(Debug, Clone)]
pub struct QueryPolicy {
    pub model: String,
    pub default_k: usize,
    pub max_k: usize,
}

/// How long, in seconds, a cached query embedding is kept.
pub const QUERY_EMBEDDING_TTL_SECS: u64 = 300;

/// The search a query turns into, all but the query's vector.
#[derive(Debug, Clone, PartialEq, Eq)]
pub struct SearchPlan {
    pub scope: Scope,
    pub k: usize,
    pub asset_ids: Vec<AssetId>,
}

/// What to do next to get a query's embedding.
#[derive(Debug, PartialEq, Eq)]
pub enum EmbeddingStep {
    /// No cache is configured: ask the provider.
    Embed,
    /// Ask the cache for the embedding kept under this key.
    LookUp(String),
    /// Use the embedding the cache gave.
    UseCached,
    /// Ask the provider, then keep its embedding under `key` for `ttl_secs` seconds.
    EmbedAndStore { key: String, ttl_secs: u64 },
}

/// The key under which the embedding of `query` by `model` is cached.
pub open spec fn cache_key_text(model: Seq<char>, query: Seq<char>) -> Seq<char> {
    "embed:"@ + model + ":"@ + query
}

/// A context may work in a scope when both name the same tenant and the
/// context either lists no namespaces or lists the scope's namespace.
pub open spec fn scope_allowed(ctx: RequestContext, scope: Scope) -> bool {
    &&& ctx.tenant_id.0@ == scope.tenant_id.0@
    &&& (ctx.allowed_namespaces@.len() == 0 || exists|i: int|
        0 <= i < ctx.allowed_namespaces@.len() && (#[trigger] ctx.allowed_namespaces@[i]).0@
            == scope.namespace.0@)
}

/// The number of matches a request for `requested` matches stands for.
pub open spec fn effective_k(policy: QueryPolicy, requested: usize) -> nat {
    if requested == 0 { policy.default_k as nat } else { requested as nat }
}

pub open spec fn k_limit_message(max_k: usize) -> Seq<char> {
    "k cannot exceed QUERY_TOP_K_MAX ("@ + decimal(max_k as nat) + ")"@
}

/// Why a single-asset query is refused, if it is.
pub open spec fn query_fault(policy: QueryPolicy, ctx: RequestContext, request: QueryRequest) -> Option<Fault> {
    if is_blank_seq(request.query@) {
        Some(Fault::Validation("query cannot be empty"@))
    } else if !scope_allowed(ctx, request.scope) {
        Some(Fault::Forbidden)
    } else if effective_k(policy, request.k) > policy.max_k {
        Some(Fault::Validation(k_limit_message(policy.max_k)))
    } else {
        None
    }
}

/// Why a batch query is refused, if it is.
pub open spec fn batch_fault(policy: QueryPolicy, ctx: RequestContext, request: BatchQueryRequest) -> Option<Fault> {
    if is_blank_seq(request.query@) {
        Some(Fault::Validation("query cannot be empty"@))
    } else if request.asset_ids@.len() == 0 {
        Some(Fault::Validation("asset_ids cannot be empty for batch query"@))
    } else if !scope_allowed(ctx, request.scope) {
        Some(Fault::Forbidden)
    } else if effective_k(policy, request.k) > policy.max_k {
        Some(Fault::Validation(k_limit_message(policy.max_k)))
    } else {
        None
    }
}

fn same_name(a: &String, b: &String) -> (r: bool)
    ensures
        r == (a@ == b@),
{
    a.eq(b)
}

impl QueryPolicy {
    pub fn new(model: String, default_k: usize, max_k: usize) -> (r: Self)
        ensures
            r.model == model,
            r.default_k == default_k,
            r.max_k == max_k,
    {
        QueryPolicy { model, default_k, max_k }
    }

    /// Refuses (with `Forbidden`) a context that may not work in `scope`.
    pub fn validate_scope_access(&self, ctx: &RequestContext, scope: &Scope) -> (r: Result<(), CoreError>)
        ensures
            r is Ok <==> scope_allowed(*ctx, *scope),
            r matches Err(e) ==> e@ == Fault::Forbidden,
    {
        if !same_name(&ctx.tenant_id.0, &scope.tenant_id.0) {
            return Err(CoreError::Forbidden);
        }
        let n = ctx.allowed_namespaces.len();
        if n == 0 {
            return Ok(());
        }
        let mut i: usize = 0;
        while i < n
            invariant
                n == ctx.allowed_namespaces@.len(),
                n > 0,
                ctx.tenant_id.0@ == scope.tenant_id.0@,
                i <= n,
                forall|j: int| 0 <= j < i ==> (#[trigger] ctx.allowed_namespaces@[j]).0@
                    != scope.namespace.0@,
            decreases n - i,
        {
            if same_name(&ctx.allowed_namespaces[i].0, &scope.namespace.0) {
                assert(ctx.allowed_namespaces@[i as int].0@ == scope.namespace.0@);
                return Ok(());
            }
            i += 1;
        }
        Err(CoreError::Forbidden)
    }

    /// The number of matches to search for: the default when none is asked
    /// for, refused when above the limit.
    pub fn normalize_k(&self, requested_k: usize) -> (r: Result<usize, CoreError>)
        ensures
            match r {
                Ok(k) => k == effective_k(*self, requested_k) && k <= self.max_k,
                Err(e) => effective_k(*self, requested_k) > self.max_k && e@ == Fault::Validation(
                    k_limit_message(self.max_k),
                ),
            },
    {
        let k = if requested_k == 0 { self.default_k } else { requested_k };
        if k > self.max_k {
            let digits = decimal_string(self.max_k as u64);
            let head = concat("k cannot exceed QUERY_TOP_K_MAX (", digits.as_str());
            let message = concat(head.as_str(), ")");
            return Err(CoreError::Validation(message));
        }
        Ok(k)
    }

    /// The key under which a query's embedding is cached.
    pub fn cache_key(&self, query: &str) -> (r: String)
        ensures
            r@ == cache_key_text(self.model@, query@),
    {
        let a = concat("embed:", self.model.as_str());
        let b = concat(a.as_str(), ":");
        concat(b.as_str(), query)
    }

    /// The first step towards a query's embedding: look it up in the cache
    /// when one is configured, else ask the provider.
    pub fn first_embedding_step(&self, query: &str, cache_configured: bool) -> (r: EmbeddingStep)
        ensures
            cache_configured ==> (r matches EmbeddingStep::LookUp(k) && k@ == cache_key_text(
                self.model@,
                query@,
            )),
            !cache_configured ==> r == EmbeddingStep::Embed,
    {
        if cache_configured {
            EmbeddingStep::LookUp(self.cache_key(query))
        } else {
            EmbeddingStep::Embed
        }
    }

    /// The step after a cache lookup: use a hit; on a miss ask the provider
    /// and keep its embedding for the cache's time to live.
    pub fn embedding_step_after_lookup(&self, query: &str, hit: bool) -> (r: EmbeddingStep)
        ensures
            hit ==> r == EmbeddingStep::UseCached,
            !hit ==> (r matches EmbeddingStep::EmbedAndStore { key, ttl_secs } && key@ == cache_key_text(
                self.model@,
                query@,
            ) && ttl_secs == QUERY_EMBEDDING_TTL_SECS),
    {
        if hit {
            EmbeddingStep::UseCached
        } else {
            EmbeddingStep::EmbedAndStore { key: self.cache_key(query), ttl_secs: QUERY_EMBEDDING_TTL_SECS }
        }
    }

    /// Checks a single-asset query and gives the search it asks for: the
    /// request's scope, the effective `k`, and the asset if one is named.
    pub fn prepare_query(&self, ctx: &RequestContext, request: QueryRequest) -> (r: Result<SearchPlan, CoreError>)
        ensures
            match r {
                Ok(plan) => {
                    &&& query_fault(*self, *ctx, request) is None
                    &&& plan.scope == request.scope
                    &&& plan.k == effective_k(*self, request.k)
                    &&& plan.asset_ids@ == match request.asset_id {
                        Some(a) => seq![a],
                        None => Seq::<AssetId>::empty(),
                    }
                },
                Err(e) => query_fault(*self, *ctx, request) == Some(e@),
            },
    {
        if is_blank(request.query.as_str()) {
            return Err(CoreError::Validation("query cannot be empty".to_owned()));
        }
        self.validate_scope_access(ctx, &request.scope)?;
        let k = self.normalize_k(request.k)?;
        let mut asset_ids: Vec<AssetId> = Vec::new();
        match request.asset_id {
            Some(a) => asset_ids.push(a),
            None => {},
        }
        Ok(SearchPlan { scope: request.scope, k, asset_ids })
    }

    /// Checks a batch query and gives the search it asks for: the request's
    /// scope, the effective `k` and its assets.
    pub fn prepare_query_batch(&self, ctx: &RequestContext, request: BatchQueryRequest) -> (r: Result<SearchPlan, CoreError>)
        ensures
            match r {
                Ok(plan) => {
                    &&& batch_fault(*self, *ctx, request) is None
                    &&& plan.scope == request.scope
                    &&& plan.k == effective_k(*self, request.k)
                    &&& plan.asset_ids@ == request.asset_ids@
                },
                Err(e) => batch_fault(*self, *ctx, request) == Some(e@),
            },
    {
        if is_blank(request.query.as_str()) {
            return Err(CoreError::Validation("query cannot be empty".to_owned()));
        }
        if request.asset_ids.len() == 0 {
            return Err(CoreError::Validation("asset_ids cannot be empty for batch query".to_owned()));
        }
        self.validate_scope_access(ctx, &request.scope)?;
        let k = self.normalize_k(request.k)?;
        Ok(SearchPlan { scope: request.scope, k, asset_ids: request.asset_ids })
    }
}

/// Tenant isolation: a query that is let through searches only the scope it
/// named, and only a scope whose tenant is the caller's.
pub proof fn law_query_stays_in_tenant(policy: QueryPolicy, ctx: RequestContext, request: QueryRequest)
    requires
        query_fault(policy, ctx, request) is None,
    ensures
        ctx.tenant_id.0@ == request.scope.tenant_id.0@,
        effective_k(policy, request.k) <= policy.max_k,
{
}

/// Every namespace a context lists is open to it, wherever it stands in the
/// list, when the tenants agree.
pub proof fn law_every_listed_namespace_is_allowed(ctx: RequestContext, scope: Scope, i: int)
    requires
        ctx.tenant_id.0@ == scope.tenant_id.0@,
        0 <= i < ctx.allowed_namespaces@.len(),
        ctx.allowed_namespaces@[i].0@ == scope.namespace.0@,
    ensures
        scope_allowed(ctx, scope),
{
}

/// A context that lists namespaces is refused every namespace it does not
/// list, and a context of another tenant is refused every scope.
pub proof fn law_unlisted_namespace_is_refused(ctx: RequestContext, scope: Scope)
    ensures
        ctx.tenant_id.0@ != scope.tenant_id.0@ ==> !scope_allowed(ctx, scope),
        ctx.allowed_namespaces@.len() > 0 && (forall|i: int|
            0 <= i < ctx.allowed_namespaces@.len() ==> (#[trigger] ctx.allowed_namespaces@[i]).0@
                != scope.namespace.0@) ==> !scope_allowed(ctx, scope),
        ctx.tenant_id.0@ == scope.tenant_id.0@ && ctx.allowed_namespaces@.len() == 0 ==> scope_allowed(
            ctx,
            scope,
        ),
{
}

/// A query over an empty asset list is always refused, whatever else it holds.
pub proof fn law_batch_needs_assets(policy: QueryPolicy, ctx: RequestContext, request: BatchQueryRequest)
    requires
        request.asset_ids@.len() == 0,
    ensures
        batch_fault(policy, ctx, request) is Some,
{
}

} // verus!
