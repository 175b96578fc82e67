use rag::domain::{ActorId, AssetId, ChunkRecord, CoreError, Namespace, SourceType, TenantId, Timestamp};
use rag::http::{
    error_response, translate_extract, translate_ingest, translate_query, translate_query_batch,
    ExtractBody, IngestBody, QueryBatchBody, QueryBody, RequestHeaders,
};
use rag::legacy::{
    legacy_document, local_embed_reply, multipart_embed_reply, text_reply, translate_legacy_query,
    translate_legacy_query_multiple, translate_local_embed, translate_multipart_ingest,
    translate_text, LegacyDefaults, LegacyLocalEmbedBody, LegacyQueryBody,
    LegacyQueryMultipleBody, LegacyUploadPayload, UploadField,
};
use rag::mcp::{dispatch, McpReply};

fn no_headers() -> RequestHeaders {
    RequestHeaders { tenant_id: None, namespace: None, actor_id: None, request_id: None }
}

fn no_defaults() -> LegacyDefaults {
    LegacyDefaults { tenant: None, namespace: None }
}

fn chunk(asset: &str, text: &str) -> ChunkRecord {
    ChunkRecord {
        tenant_id: TenantId("public".into()),
        namespace: Namespace("default".into()),
        asset_id: AssetId(asset.into()),
        actor_id: None,
        source_type: SourceType::Text,
        source_uri: None,
        digest: "digest".into(),
        chunk_index: 0,
        page: None,
        path: None,
        language: None,
        mime_type: None,
        title: None,
        text: text.into(),
        tags: vec![],
        created_at: Timestamp { seconds: 0, nanos: 0 },
    }
}

#[test]
fn post_v1_query_returns_matches() {
    let body = QueryBody {
        query: "hello".into(),
        k: Some(4),
        asset_id: Some("file-1".into()),
        tenant_id: None,
        namespace: None,
    };
    let (ctx, req) = translate_query(body, &no_headers(), "fresh".into()).unwrap();
    assert_eq!(req.asset_id, Some(AssetId("file-1".into())));
    assert_eq!(req.k, 4);
    assert_eq!(req.scope.tenant_id.0, "public");
    assert_eq!(req.scope.namespace.0, "default");
    assert_eq!(ctx.request_id, "fresh");
    assert_eq!(ctx.allowed_namespaces, vec![Namespace("default".into())]);
}

#[test]
fn post_v1_query_batch_returns_matches() {
    let body = QueryBatchBody {
        query: "hello".into(),
        k: Some(3),
        asset_ids: vec!["file-1".into(), "file-2".into()],
        tenant_id: None,
        namespace: None,
    };
    let (_ctx, req) = translate_query_batch(body, &no_headers(), "r".into()).unwrap();
    assert_eq!(req.asset_ids.len(), 2);
    assert_eq!(req.asset_ids[0].0, "file-1");
    assert_eq!(req.k, 3);
}

#[test]
fn post_v1_assets_ingest_returns_ok() {
    let body = IngestBody {
        tenant_id: Some("public".into()),
        namespace: Some("default".into()),
        asset_id: "asset-1".into(),
        source_type: "text".into(),
        source_uri: None,
        content: Some("payload".into()),
        mime_type: None,
    };
    let (_ctx, req) = translate_ingest(body, &no_headers(), "r".into()).unwrap();
    assert_eq!(req.asset_id.0, "asset-1");
    assert_eq!(req.scope.namespace.0, "default");
    assert_eq!(req.source_type, SourceType::Text);
}

#[test]
fn post_v1_assets_extract_returns_text() {
    let body = ExtractBody {
        tenant_id: Some("public".into()),
        namespace: Some("default".into()),
        source_type: "text".into(),
        source_uri: None,
        content: Some("payload".into()),
    };
    let (_ctx, req) = translate_extract(body, &no_headers(), "r".into()).unwrap();
    let resp = rag::extract::simple_extract(req).unwrap();
    assert_eq!(resp.text, "payload");
}

#[test]
fn canonical_requests_are_refused_with_400() {
    let blank = QueryBody { query: "  ".into(), k: None, asset_id: None, tenant_id: None, namespace: None };
    let e = translate_query(blank, &no_headers(), "r".into()).unwrap_err();
    assert_eq!((e.status, e.message.as_str()), (400, "query cannot be empty"));

    let empty = QueryBatchBody { query: "q".into(), k: None, asset_ids: vec![], tenant_id: None, namespace: None };
    let e = translate_query_batch(empty, &no_headers(), "r".into()).unwrap_err();
    assert_eq!(e.message, "asset_ids cannot be empty");

    let bad_type = IngestBody {
        tenant_id: None,
        namespace: None,
        asset_id: "a".into(),
        source_type: "video".into(),
        source_uri: None,
        content: Some("x".into()),
        mime_type: None,
    };
    let e = translate_ingest(bad_type, &no_headers(), "r".into()).unwrap_err();
    assert_eq!(e.message, "invalid source_type");

    let no_content = ExtractBody {
        tenant_id: None,
        namespace: None,
        source_type: "pdf".into(),
        source_uri: Some("/x.pdf".into()),
        content: None,
    };
    let e = translate_extract(no_content, &no_headers(), "r".into()).unwrap_err();
    assert_eq!(e.message, "content cannot be empty");
}

#[test]
fn headers_fill_in_scope_and_identity() {
    let headers = RequestHeaders {
        tenant_id: Some("acme".into()),
        namespace: Some("docs".into()),
        actor_id: Some("bob".into()),
        request_id: Some("req-9".into()),
    };
    let body = QueryBody { query: "q".into(), k: None, asset_id: None, tenant_id: None, namespace: Some("own".into()) };
    let (ctx, req) = translate_query(body, &headers, "fresh".into()).unwrap();
    assert_eq!(req.scope.tenant_id.0, "acme");
    assert_eq!(req.scope.namespace.0, "own");
    assert_eq!(req.k, 4);
    assert_eq!(ctx.actor_id, Some(ActorId("bob".into())));
    assert_eq!(ctx.request_id, "req-9");
    assert_eq!(ctx.tenant_id.0, "acme");
}

#[test]
fn core_errors_map_to_statuses() {
    let cases = vec![
        (CoreError::Validation("v".into()), 400, "validation error: v"),
        (CoreError::Unauthorized, 401, "unauthorized"),
        (CoreError::Forbidden, 403, "forbidden"),
        (CoreError::NotFound, 404, "not found"),
        (CoreError::Provider("p".into()), 500, "provider error: p"),
        (CoreError::Storage("s".into()), 500, "storage error: s"),
        (CoreError::Lock("l".into()), 500, "lock error: l"),
        (CoreError::NotImplemented("n".into()), 501, "not implemented: n"),
    ];
    for (e, status, text) in cases {
        let r = error_response(&e);
        assert_eq!(r.status, status);
        assert_eq!(r.message, text);
        assert_eq!(e.message(), text);
    }
}

#[test]
fn post_legacy_query_translates_file_id_and_shape() {
    let body = LegacyQueryBody { query: "hello".into(), file_id: "abc-123".into(), k: Some(4), entity_id: None };
    let q = translate_legacy_query(body, &no_headers(), &no_defaults(), "r".into()).ok().unwrap();
    assert_eq!(q.request.asset_id.clone().unwrap().0, "abc-123");
    assert_eq!(q.request.scope.namespace.0, "librechat");
    assert_eq!(q.request.scope.tenant_id.0, "public");
    let doc = legacy_document(chunk("abc-123", "legacy response"), &q.actor);
    assert_eq!(doc.page_content, "legacy response");
    assert_eq!(doc.metadata.file_id, "abc-123");
    assert_eq!(doc.metadata.source_type, "text");
}

#[test]
fn post_legacy_query_multiple_translates_file_ids_and_shape() {
    let body = LegacyQueryMultipleBody {
        query: "hello".into(),
        file_ids: vec!["abc-123".into(), "xyz-999".into()],
        k: Some(5),
        entity_id: None,
    };
    let q = translate_legacy_query_multiple(body, &no_headers(), &no_defaults(), "r".into()).ok().unwrap();
    assert_eq!(q.request.asset_ids.len(), 2);
    assert_eq!(q.request.asset_ids[0].0, "abc-123");
    assert_eq!(q.request.k, 5);
    let doc = legacy_document(chunk("abc-123", "legacy batch response"), &q.actor);
    assert_eq!(doc.page_content, "legacy batch response");
    assert_eq!(doc.metadata.file_id, "abc-123");
}

#[test]
fn post_embed_calls_ingest_and_returns_metadata() {
    let mut payload = LegacyUploadPayload::new();
    payload.accept(UploadField::FileId("legacy-1".into())).unwrap();
    assert!(payload.wants_file());
    payload
        .accept(UploadField::File { filename: Some("name.txt".into()), bytes: b"data".to_vec() })
        .unwrap();
    assert!(!payload.wants_file());
    let ingest = translate_multipart_ingest(&payload, SourceType::Upload, &no_headers(), &no_defaults(), "r".into())
        .ok()
        .unwrap();
    assert_eq!(ingest.request.source_type, SourceType::Upload);
    assert_eq!(ingest.request.content, Some("data".to_string()));
    let reply = multipart_embed_reply(&payload, &ingest.request.asset_id);
    assert_eq!(reply.status, "success");
    assert_eq!(reply.file_id, "legacy-1");
    assert_eq!(reply.filename, "name.txt");
    assert_eq!(reply.known_type, "unknown");
}

#[test]
fn post_local_embed_calls_ingest_with_source_type() {
    let body = LegacyLocalEmbedBody {
        file_id: "local-1".into(),
        entity_id: None,
        content: Some("payload".into()),
        known_type: Some("text/plain".into()),
        path: Some("/tmp/local.txt".into()),
    };
    let ingest = translate_local_embed(&body, &no_headers(), &no_defaults(), "r".into()).ok().unwrap();
    assert_eq!(ingest.request.source_type, SourceType::LocalFile);
    assert_eq!(ingest.request.source_uri, Some("/tmp/local.txt".to_string()));
    let reply = local_embed_reply(&body, &ingest.request.asset_id);
    assert_eq!(reply.filename, "/tmp/local.txt");
    assert_eq!(reply.known_type, "text/plain");
}

#[test]
fn post_text_returns_extracted_text_and_file_id() {
    let mut payload = LegacyUploadPayload::new();
    payload.accept(UploadField::FileId("text-1".into())).unwrap();
    payload
        .accept(UploadField::File { filename: Some("txt.txt".into()), bytes: b"hello".to_vec() })
        .unwrap();
    let extract = translate_text(&payload, &no_headers(), &no_defaults(), "r".into()).ok().unwrap();
    assert_eq!(extract.request.source_type, SourceType::Text);
    let resp = rag::extract::simple_extract(extract.request).unwrap();
    let reply = text_reply(&payload, resp.text);
    assert_eq!(reply.text, "hello");
    assert_eq!(reply.file_id, "text-1");
    assert_eq!(reply.filename, "txt.txt");
}

#[test]
fn legacy_uploads_are_checked() {
    let mut payload = LegacyUploadPayload::new();
    let e = payload.accept(UploadField::File { filename: None, bytes: vec![0xff, 0xfe] }).unwrap_err();
    assert_eq!((e.status, e.message.as_str()), (400, "file must be text"));

    let mut second = LegacyUploadPayload::new();
    second.accept(UploadField::File { filename: Some("a".into()), bytes: b"first".to_vec() }).unwrap();
    second.accept(UploadField::File { filename: Some("b".into()), bytes: b"second".to_vec() }).unwrap();
    second.accept(UploadField::Other).unwrap();
    assert_eq!(second.content, Some("first".to_string()));
    assert_eq!(second.filename, Some("a".to_string()));

    let e = translate_multipart_ingest(&second, SourceType::Upload, &no_headers(), &no_defaults(), "r".into())
        .err()
        .unwrap();
    assert_eq!(e.message, "file_id is required");
    let e = translate_text(&second, &no_headers(), &no_defaults(), "r".into()).err().unwrap();
    assert_eq!(e.message, "file_id and file are required");

    let mut blank = LegacyUploadPayload::new();
    blank.accept(UploadField::FileId("f".into())).unwrap();
    blank.accept(UploadField::File { filename: None, bytes: b"  ".to_vec() }).unwrap();
    let e = translate_multipart_ingest(&blank, SourceType::Upload, &no_headers(), &no_defaults(), "r".into())
        .err()
        .unwrap();
    assert_eq!(e.message, "file contents are required");
    let reply = multipart_embed_reply(&blank, &AssetId("f".into()));
    assert_eq!(reply.filename, "f");
}

#[test]
fn legacy_scope_uses_headers_then_configuration() {
    let defaults = LegacyDefaults { tenant: Some("cfg-tenant".into()), namespace: None };
    let headers = RequestHeaders { tenant_id: None, namespace: Some("ns".into()), actor_id: Some("hdr".into()), request_id: None };
    let body = LegacyQueryBody { query: "q".into(), file_id: "f".into(), k: None, entity_id: Some("entity".into()) };
    let q = translate_legacy_query(body, &headers, &defaults, "fresh".into()).ok().unwrap();
    assert_eq!(q.request.scope.tenant_id.0, "cfg-tenant");
    assert_eq!(q.request.scope.namespace.0, "ns");
    assert_eq!(q.actor, Some("entity".to_string()));
    assert_eq!(q.ctx.actor_id, Some(ActorId("entity".into())));
    assert_eq!(q.request.k, 4);
    let mut c = chunk("f", "t");
    let doc = legacy_document(c.clone(), &q.actor);
    assert_eq!(doc.metadata.user_id, Some("entity".to_string()));
    c.actor_id = Some(ActorId("owner".into()));
    assert_eq!(legacy_document(c, &q.actor).metadata.user_id, Some("owner".to_string()));
}

#[test]
fn mcp_dispatch_follows_json_rpc() {
    assert_eq!(dispatch(None, "ping"), McpReply::InvalidRequest);
    assert_eq!(dispatch(Some("1.0"), "ping"), McpReply::InvalidRequest);
    assert_eq!(dispatch(Some("2.0"), "initialize"), McpReply::Initialize);
    assert_eq!(dispatch(Some("2.0"), "notifications/initialized"), McpReply::Accepted);
    assert_eq!(dispatch(Some("2.0"), "ping"), McpReply::Ping);
    assert_eq!(dispatch(Some("2.0"), "tools/list"), McpReply::ToolsList);
    assert_eq!(dispatch(Some("2.0"), "resources/list"), McpReply::ResourcesList);
    assert_eq!(dispatch(Some("2.0"), "prompts/list"), McpReply::PromptsList);
    assert_eq!(
        dispatch(Some("2.0"), "tools/call"),
        McpReply::MethodNotFound("Method not found: tools/call".into())
    );
    assert_eq!(McpReply::InvalidRequest.status(), 400);
    assert_eq!(McpReply::Accepted.status(), 202);
    assert_eq!(McpReply::Ping.status(), 200);
}

#[test]
fn translated_contexts_pass_the_scope_check() {
    let policy = rag::query::QueryPolicy::new("m".into(), 4, 20);
    let headers = RequestHeaders {
        tenant_id: Some("acme".into()),
        namespace: Some("docs".into()),
        actor_id: Some("u1".into()),
        request_id: None,
    };
    let body = QueryBody { query: "q".into(), k: None, asset_id: None, tenant_id: None, namespace: None };
    let (ctx, req) = translate_query(body, &headers, "fresh".into()).unwrap();
    assert!(policy.validate_scope_access(&ctx, &req.scope).is_ok());
    let q = translate_legacy_query(
        LegacyQueryBody { query: "q".into(), file_id: "f".into(), k: None, entity_id: None },
        &headers,
        &no_defaults(),
        "fresh".into(),
    )
    .unwrap();
    assert!(policy.validate_scope_access(&q.ctx, &q.request.scope).is_ok());
}

#[test]
fn request_ids_come_from_the_header_or_are_fresh() {
    let mut headers = no_headers();
    headers.request_id = Some("req-42".into());
    assert_eq!(rag::http::request_id_for(&headers), "req-42");
    let fresh = rag::http::request_id_for(&no_headers());
    assert_eq!(fresh.len(), 36);
    assert_eq!(fresh.matches('-').count(), 4);
    assert_ne!(fresh, rag::http::request_id_for(&no_headers()));
}

#[test]
fn mcp_replies_carry_their_codes_and_lists() {
    assert_eq!(McpReply::InvalidRequest.error(), Some((-32600, "Invalid Request".to_string())));
    assert_eq!(
        McpReply::MethodNotFound("Method not found: x".into()).error(),
        Some((-32601, "Method not found: x".to_string()))
    );
    assert_eq!(McpReply::Ping.error(), None);
    assert_eq!(McpReply::ToolsList.listed(), Some("tools"));
    assert_eq!(McpReply::ResourcesList.listed(), Some("resources"));
    assert_eq!(McpReply::PromptsList.listed(), Some("prompts"));
    assert_eq!(McpReply::Initialize.listed(), None);
    let d = rag::mcp::server_description();
    assert_eq!(d.protocol_version, "2024-11-05");
    assert_eq!(d.name, "local-rag-mcp");
    assert_eq!(d.version, "0.1.0");
    assert!(!d.tools_list_changed);
}

#[test]
fn fresh_request_ids_are_version_7_uuids() {
    let fresh = rag::http::request_id_for(&no_headers());
    assert_eq!(fresh.chars().nth(14), Some('7'));
    assert!(uuid_shape(&fresh));
}

fn uuid_shape(s: &str) -> bool {
    s.len() == 36
        && s.chars().enumerate().all(|(i, c)| {
            if [8, 13, 18, 23].contains(&i) { c == '-' } else { c.is_ascii_digit() || ('a'..='f').contains(&c) }
        })
}
