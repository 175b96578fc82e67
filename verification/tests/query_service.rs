use rag::domain::{AssetId, BatchQueryRequest, CoreError, Namespace, QueryRequest, RequestContext, Scope, TenantId};
use rag::query::{EmbeddingStep, QueryPolicy, QUERY_EMBEDDING_TTL_SECS};

fn ctx_for(tenant: &str, namespaces: &[&str]) -> RequestContext {
    RequestContext {
        tenant_id: TenantId(tenant.to_string()),
        actor_id: None,
        roles: vec![],
        allowed_namespaces: namespaces.iter().map(|n| Namespace(n.to_string())).collect(),
        request_id: "req-1".to_string(),
    }
}

fn scope(tenant: &str, namespace: &str) -> Scope {
    Scope { tenant_id: TenantId(tenant.to_string()), namespace: Namespace(namespace.to_string()) }
}

#[test]
fn query_uses_embedding_and_scoped_search() {
    let policy = QueryPolicy::new("text-embedding-3-small".to_string(), 4, 20);
    let ctx = ctx_for("tenant-a", &["default"]);
    let request = QueryRequest {
        scope: scope("tenant-a", "default"),
        query: "hello".to_string(),
        asset_id: Some(AssetId("asset-1".to_string())),
        k: 4,
    };
    let plan = policy.prepare_query(&ctx, request).unwrap();
    assert_eq!(plan.scope.tenant_id.0, "tenant-a");
    assert_eq!(plan.scope.namespace.0, "default");
    assert_eq!(plan.k, 4);
    assert_eq!(plan.asset_ids.len(), 1);
    assert_eq!(plan.asset_ids[0].0, "asset-1");
    assert_eq!(policy.cache_key("hello"), "embed:text-embedding-3-small:hello");
}

#[test]
fn query_rejects_tenant_mismatch() {
    let policy = QueryPolicy::new("text-embedding-3-small".to_string(), 4, 20);
    let ctx = ctx_for("tenant-a", &["default"]);
    let request = QueryRequest {
        scope: scope("tenant-b", "default"),
        query: "hello".to_string(),
        asset_id: None,
        k: 4,
    };
    let err = policy.prepare_query(&ctx, request).unwrap_err();
    assert!(matches!(err, CoreError::Forbidden));
}

#[test]
fn query_rejects_k_over_limit() {
    let policy = QueryPolicy::new("text-embedding-3-small".to_string(), 4, 5);
    let ctx = ctx_for("tenant-a", &["default"]);
    let request = QueryRequest {
        scope: scope("tenant-a", "default"),
        query: "hello".to_string(),
        asset_id: None,
        k: 6,
    };
    let err = policy.prepare_query(&ctx, request).unwrap_err();
    assert!(matches!(err, CoreError::Validation(_)));
    assert_eq!(err, CoreError::Validation("k cannot exceed QUERY_TOP_K_MAX (5)".to_string()));
}

#[test]
fn batch_query_requires_asset_ids() {
    let policy = QueryPolicy::new("text-embedding-3-small".to_string(), 4, 5);
    let ctx = ctx_for("tenant-a", &["default"]);
    let request = BatchQueryRequest {
        scope: scope("tenant-a", "default"),
        query: "hello".to_string(),
        asset_ids: vec![],
        k: 4,
    };
    let err = policy.prepare_query_batch(&ctx, request).unwrap_err();
    assert!(matches!(err, CoreError::Validation(_)));
}

#[test]
fn blank_query_is_refused_before_scope_checks() {
    let policy = QueryPolicy::new("m".to_string(), 4, 20);
    let ctx = ctx_for("tenant-a", &[]);
    let request = QueryRequest {
        scope: scope("tenant-b", "x"),
        query: " \t\n".to_string(),
        asset_id: None,
        k: 0,
    };
    let err = policy.prepare_query(&ctx, request).unwrap_err();
    assert_eq!(err, CoreError::Validation("query cannot be empty".to_string()));
}

#[test]
fn zero_k_takes_the_default_and_empty_namespace_list_allows_any() {
    let policy = QueryPolicy::new("m".to_string(), 7, 20);
    let ctx = ctx_for("t", &[]);
    let request = QueryRequest { scope: scope("t", "anything"), query: "q".to_string(), asset_id: None, k: 0 };
    let plan = policy.prepare_query(&ctx, request).unwrap();
    assert_eq!(plan.k, 7);
    assert!(plan.asset_ids.is_empty());
}

#[test]
fn namespace_outside_the_allowed_list_is_forbidden() {
    let policy = QueryPolicy::new("m".to_string(), 4, 20);
    let ctx = ctx_for("t", &["a", "b"]);
    assert_eq!(policy.validate_scope_access(&ctx, &scope("t", "b")), Ok(()));
    assert_eq!(policy.validate_scope_access(&ctx, &scope("t", "c")), Err(CoreError::Forbidden));
}

#[test]
fn batch_query_keeps_the_assets_in_order() {
    let policy = QueryPolicy::new("m".to_string(), 4, 20);
    let ctx = ctx_for("t", &["n"]);
    let request = BatchQueryRequest {
        scope: scope("t", "n"),
        query: "q".to_string(),
        asset_ids: vec![AssetId("x".to_string()), AssetId("y".to_string())],
        k: 3,
    };
    let plan = policy.prepare_query_batch(&ctx, request).unwrap();
    assert_eq!(plan.k, 3);
    assert_eq!(plan.asset_ids, vec![AssetId("x".to_string()), AssetId("y".to_string())]);
}

#[test]
fn normalize_k_limits() {
    let policy = QueryPolicy::new("m".to_string(), 4, 20);
    assert_eq!(policy.normalize_k(0), Ok(4));
    assert_eq!(policy.normalize_k(20), Ok(20));
    assert_eq!(
        policy.normalize_k(21),
        Err(CoreError::Validation("k cannot exceed QUERY_TOP_K_MAX (20)".to_string()))
    );
}

#[test]
fn cached_embeddings_are_looked_up_then_stored_on_a_miss() {
    let policy = QueryPolicy::new("m".to_string(), 4, 20);
    assert_eq!(policy.first_embedding_step("q", false), EmbeddingStep::Embed);
    assert_eq!(policy.first_embedding_step("q", true), EmbeddingStep::LookUp("embed:m:q".to_string()));
    assert_eq!(policy.embedding_step_after_lookup("q", true), EmbeddingStep::UseCached);
    assert_eq!(
        policy.embedding_step_after_lookup("q", false),
        EmbeddingStep::EmbedAndStore { key: "embed:m:q".to_string(), ttl_secs: 300 }
    );
    assert_eq!(QUERY_EMBEDDING_TTL_SECS, 300);
}
