use rag::domain::{
    ActorId, AssetId, ChunkRecord, CoreError, Namespace, Scope, SourceType, TenantId, Timestamp,
};
use rag::storage::{
    build_scope_filter, check_query_vector, index_error, index_fields, plan_points,
    scroll_continues, summarize_assets, text_is_before, CollectionVectors, FieldMatch,
    FilterClause, QdrantRepositoryConfig, StoredPayload,
};

fn scope() -> Scope {
    Scope { tenant_id: TenantId("tenant-a".to_string()), namespace: Namespace("default".to_string()) }
}

fn record(asset: &str, index: u32, created_at: Timestamp) -> ChunkRecord {
    ChunkRecord {
        tenant_id: TenantId("tenant-a".to_string()),
        namespace: Namespace("default".to_string()),
        asset_id: AssetId(asset.to_string()),
        actor_id: Some(ActorId("user-1".to_string())),
        source_type: SourceType::Pdf,
        source_uri: Some("/docs/a.pdf".to_string()),
        digest: "d".to_string(),
        chunk_index: index,
        page: Some(3),
        path: None,
        language: Some("en".to_string()),
        mime_type: Some("application/pdf".to_string()),
        title: None,
        text: "some text".to_string(),
        tags: vec!["x".to_string(), "y".to_string()],
        created_at,
    }
}

fn is(key: &str, value: &str) -> FilterClause {
    FilterClause::Is(FieldMatch { key: key.to_string(), value: value.to_string() })
}

const T0: Timestamp = Timestamp { seconds: 1_700_000_000, nanos: 5 };

#[test]
fn default_config_points_at_local_store() {
    let c = QdrantRepositoryConfig::default();
    assert_eq!(c.url, "http://localhost:6334");
    assert_eq!(c.api_key, None);
    assert_eq!(c.collection_name, "chunks_te3_small");
    assert_eq!(c.vector_size, 1536);
}

#[test]
fn empty_api_key_is_not_sent() {
    let mut c = QdrantRepositoryConfig::default();
    assert_eq!(c.effective_api_key(), None);
    c.api_key = Some(String::new());
    assert_eq!(c.effective_api_key(), None);
    c.api_key = Some("secret".to_string());
    assert_eq!(c.effective_api_key(), Some("secret".to_string()));
}

#[test]
fn indexes_cover_the_scope_fields() {
    assert_eq!(index_fields(), vec!["tenant_id", "namespace", "asset_id", "actor_id", "source_type"]);
}

#[test]
fn existing_index_is_not_an_error() {
    assert_eq!(index_error("asset_id", "Index ALREADY exists"), None);
    assert_eq!(index_error("asset_id", "field already indexed"), None);
    assert_eq!(
        index_error("asset_id", "connection refused"),
        Some(CoreError::Storage("create_field_index failed for 'asset_id': connection refused".to_string()))
    );
}

#[test]
fn vector_size_must_match_existing_collection() {
    let c = QdrantRepositoryConfig::default();
    assert!(c.check_vector_size(&CollectionVectors::Size(Some(1536))).is_ok());
    assert_eq!(
        c.check_vector_size(&CollectionVectors::Size(Some(768))),
        Err(CoreError::Validation(
            "qdrant collection 'chunks_te3_small' vector size mismatch: expected 1536, found 768".to_string()
        ))
    );
    assert_eq!(
        c.check_vector_size(&CollectionVectors::Size(None)),
        Err(CoreError::Storage("unable to determine collection vector size".to_string()))
    );
    assert_eq!(
        c.check_vector_size(&CollectionVectors::NoResult),
        Err(CoreError::Storage("collection_info returned no result".to_string()))
    );
    assert_eq!(
        c.check_vector_size(&CollectionVectors::NoConfig),
        Err(CoreError::Storage("collection has no config payload".to_string()))
    );
    assert_eq!(
        c.check_vector_size(&CollectionVectors::NoParams),
        Err(CoreError::Storage("collection has no params payload".to_string()))
    );
    assert_eq!(
        c.check_vector_size(&CollectionVectors::NoVectorsConfig),
        Err(CoreError::Storage("collection has no vectors_config".to_string()))
    );
}

#[test]
fn payload_round_trip_keeps_the_chunk() {
    let c = record("asset-1", 4, T0);
    let p = StoredPayload::from_chunk(&c).unwrap();
    assert_eq!(p.source_type, "pdf");
    assert_eq!(p.actor_id.as_deref(), Some("user-1"));
    assert_eq!(p.created_at, "2023-11-14T22:13:20.000000005+00:00");
    let now = Timestamp { seconds: 0, nanos: 0 };
    let back = p.into_chunk_record_at(now);
    assert_eq!(back, c);
}

#[test]
fn unreadable_payload_fields_fall_back() {
    let mut p = StoredPayload::from_chunk(&record("asset-1", 0, T0)).unwrap();
    p.source_type = "spreadsheet".to_string();
    p.created_at = "yesterday".to_string();
    let now = Timestamp { seconds: 42, nanos: 7 };
    let back = p.into_chunk_record_at(now);
    assert_eq!(back.source_type, SourceType::Text);
    assert_eq!(back.created_at, now);
}

#[test]
fn readable_payloads_do_not_need_the_clock() {
    let c = record("asset-1", 4, T0);
    let back = StoredPayload::from_chunk(&c).unwrap().into_chunk_record();
    assert_eq!(back, c);
}

#[test]
fn scope_filter_names_tenant_and_namespace_first() {
    let f = build_scope_filter(&scope(), None, &vec![], None);
    assert_eq!(f.must, vec![is("tenant_id", "tenant-a"), is("namespace", "default")]);

    let single = AssetId("asset-1".to_string());
    let assets = vec![AssetId("a".to_string()), AssetId("b".to_string())];
    let f = build_scope_filter(&scope(), Some(&single), &assets, Some(SourceType::LocalFile));
    assert_eq!(
        f.must,
        vec![
            is("tenant_id", "tenant-a"),
            is("namespace", "default"),
            is("asset_id", "asset-1"),
            FilterClause::AnyOf(vec![
                FieldMatch { key: "asset_id".to_string(), value: "a".to_string() },
                FieldMatch { key: "asset_id".to_string(), value: "b".to_string() },
            ]),
            is("source_type", "local_file"),
        ]
    );
}

#[test]
fn paging_stops_on_an_empty_page_or_no_next_offset() {
    assert!(scroll_continues(256, true));
    assert!(!scroll_continues(0, true));
    assert!(!scroll_continues(17, false));
}

#[test]
fn search_needs_a_query_vector() {
    assert!(check_query_vector(3).is_ok());
    assert_eq!(check_query_vector(0), Err(CoreError::Validation("query_vector cannot be empty".to_string())));
}

#[test]
fn points_are_planned_in_order_and_empty_embeddings_refused() {
    let chunks = vec![record("asset-1", 0, T0), record("asset-1", 1, T0)];
    let points = plan_points(&chunks, &vec![3, 3]).unwrap();
    assert_eq!(points.len(), 2);
    assert_eq!(points[1].payload.chunk_index, 1);
    assert_eq!(points[0].id, rag::identity::point_id("tenant-a", "default", "asset-1", 0, "d"));
    assert_ne!(points[0].id, points[1].id);

    assert_eq!(
        plan_points(&chunks, &vec![3, 0]),
        Err(CoreError::Validation("chunk.embedding cannot be empty when upserting to qdrant".to_string()))
    );
    let far = Timestamp { seconds: i64::MAX, nanos: 0 };
    assert!(matches!(plan_points(&vec![record("a", 0, far)], &vec![3]), Err(CoreError::Storage(_))));
}

#[test]
fn assets_are_counted_and_sorted_by_name() {
    let ids = ["b", "a", "b", "c", "b", "a"].iter().map(|s| s.to_string()).collect();
    let summary = summarize_assets(ids);
    let got: Vec<(&str, usize)> = summary.iter().map(|s| (s.asset_id.0.as_str(), s.chunk_count)).collect();
    assert_eq!(got, vec![("a", 2), ("b", 3), ("c", 1)]);
    assert_eq!(summary.iter().map(|s| s.chunk_count).sum::<usize>(), 6);
    assert!(summarize_assets(vec![]).is_empty());
}

#[test]
fn name_order_is_byte_order() {
    assert!(text_is_before("B", "a"));
    assert!(text_is_before("ab", "abc"));
    assert!(!text_is_before("abc", "abc"));
    assert!(text_is_before("z", "é"));
    let mut names = vec!["é", "z", "B", "a", "ab"];
    names.sort();
    for w in names.windows(2) {
        assert!(text_is_before(w[0], w[1]));
    }
}

#[test]
fn instants_beyond_year_9999_do_not_read_back() {
    let far = Timestamp { seconds: 253_402_300_800, nanos: 0 };
    let p = StoredPayload::from_chunk(&record("a", 0, far)).unwrap();
    assert!(p.created_at.starts_with('+'));
    let now = Timestamp { seconds: 1, nanos: 2 };
    assert_eq!(p.into_chunk_record_at(now).created_at, now);
    let last = Timestamp { seconds: 253_402_300_799, nanos: 999_999_999 };
    let c = record("a", 0, last);
    assert_eq!(StoredPayload::from_chunk(&c).unwrap().into_chunk_record_at(now), c);
    let first = Timestamp { seconds: -62_167_219_200, nanos: 0 };
    let c = record("a", 0, first);
    assert_eq!(StoredPayload::from_chunk(&c).unwrap().into_chunk_record_at(now), c);
}
