use rag::chunking::{Chunk, RecursiveChunker};
use rag::domain::{
    ActorId, AssetId, CoreError, IngestRequest, Namespace, Scope, SourceType, TenantId, Timestamp,
};
use rag::identity::{chunk_digest, point_id};
use rag::ingest::{split_batches, IngestPlanner};

fn texts(chunks: &[Chunk]) -> Vec<&str> {
    chunks.iter().map(|c| c.text.as_str()).collect()
}

fn scope() -> Scope {
    Scope { tenant_id: TenantId("tenant-a".to_string()), namespace: Namespace("default".to_string()) }
}

fn request(content: Option<&str>) -> IngestRequest {
    IngestRequest {
        scope: scope(),
        asset_id: AssetId("asset-1".to_string()),
        source_type: SourceType::Text,
        source_uri: Some("notes.txt".to_string()),
        content: content.map(|c| c.to_string()),
        mime_type: Some("text/plain".to_string()),
    }
}

fn planner(size: usize, overlap: usize, embed_batch: usize) -> IngestPlanner {
    IngestPlanner {
        chunker: RecursiveChunker::new(size, overlap),
        model: "text-embedding-3-small".to_string(),
        embed_batch_size: embed_batch,
        upsert_batch_size: 100,
    }
}

fn chunk(text: &str, index: u32) -> Chunk {
    Chunk { text: text.to_string(), chunk_index: index }
}

const T0: Timestamp = Timestamp { seconds: 1_700_000_000, nanos: 0 };

#[test]
fn chunks_overlap_by_the_configured_amount() {
    let chunks = RecursiveChunker::new(5, 2).chunk_text("hello world");
    assert_eq!(texts(&chunks), vec!["hello", "lo wo", "world"]);
    let indexes: Vec<u32> = chunks.iter().map(|c| c.chunk_index).collect();
    assert_eq!(indexes, vec![0, 1, 2]);
}

#[test]
fn chunking_counts_characters_not_bytes() {
    let chunks = RecursiveChunker::new(2, 0).chunk_text("héllo");
    assert_eq!(texts(&chunks), vec!["hé", "ll", "o"]);
}

#[test]
fn chunking_edge_cases() {
    assert!(RecursiveChunker::new(5, 2).chunk_text("").is_empty());
    // A text shorter than one window is one chunk.
    assert_eq!(texts(&RecursiveChunker::new(1000, 200).chunk_text("short")), vec!["short"]);
    // An overlap of at least the window size still advances by one character.
    assert_eq!(texts(&RecursiveChunker::new(3, 5).chunk_text("abcd")), vec!["abc", "bcd"]);
    // Windows of no characters: one empty chunk per character.
    assert_eq!(texts(&RecursiveChunker::new(0, 0).chunk_text("ab")), vec!["", ""]);
}

#[test]
fn chunks_reassemble_into_the_text() {
    let text = "The quick brown fox jumps over the lazy dog, twice over.";
    let (size, overlap) = (7, 3);
    let chunks = RecursiveChunker::new(size, overlap).chunk_text(text);
    let mut rebuilt: String = chunks[0].text.clone();
    for c in &chunks[1..] {
        rebuilt.extend(c.text.chars().skip(overlap));
    }
    assert_eq!(rebuilt, text);
    assert!(chunks.iter().all(|c| c.text.chars().count() <= size));
}

#[test]
fn plan_refuses_missing_or_blank_content() {
    let p = planner(5, 2, 2);
    for content in [None, Some(""), Some(" \n\t ")] {
        match p.plan(&request(content)) {
            Err(CoreError::Validation(m)) => assert_eq!(m, "ingest content cannot be empty"),
            other => panic!("unexpected {:?}", other),
        }
    }
}

#[test]
fn plan_groups_chunks_for_embedding_in_order() {
    let batches = planner(5, 2, 2).plan(&request(Some("hello world"))).unwrap();
    assert_eq!(batches.len(), 2);
    assert_eq!(texts(&batches[0]), vec!["hello", "lo wo"]);
    assert_eq!(texts(&batches[1]), vec!["world"]);
    assert_eq!(batches[1][0].chunk_index, 2);
}

#[test]
fn split_batches_cuts_in_order() {
    let groups = split_batches(vec![1, 2, 3, 4, 5, 6, 7], 3);
    assert_eq!(groups, vec![vec![1, 2, 3], vec![4, 5, 6], vec![7]]);
    assert!(split_batches(Vec::<u8>::new(), 3).is_empty());
    assert_eq!(split_batches(vec![1, 2], 5), vec![vec![1, 2]]);
}

#[test]
fn chunk_digest_is_hex_sha256_of_scope_asset_index_and_text() {
    let d = chunk_digest(&scope(), &AssetId("asset-1".to_string()), "hello world", 2);
    assert_eq!(d, "5cec375183cf251b225ca06f9989887976687d2c8010c5bf46aa47c3cfcaa8ed");
    // A different position gives a different digest.
    assert_ne!(d, chunk_digest(&scope(), &AssetId("asset-1".to_string()), "hello world", 3));
}

#[test]
fn point_ids_are_name_based_uuids() {
    assert_eq!(point_id("t", "n", "a", 0, "d"), "6f88db5e-e021-5160-b76f-67871c8d5e47");
    let d = "5cec375183cf251b225ca06f9989887976687d2c8010c5bf46aa47c3cfcaa8ed";
    assert_eq!(point_id("tenant-a", "default", "asset-1", 2, d), "a7236788-adaa-5b83-8f62-560ef685380b");
}

#[test]
fn chunk_record_carries_the_request_metadata() {
    let req = request(Some("hello world"));
    let actor = Some(ActorId("user-7".to_string()));
    let rec = IngestPlanner::chunk_record(&req, &actor, chunk("hello world", 2), T0);
    assert_eq!(rec.tenant_id.0, "tenant-a");
    assert_eq!(rec.namespace.0, "default");
    assert_eq!(rec.asset_id.0, "asset-1");
    assert_eq!(rec.actor_id, actor);
    assert_eq!(rec.source_type, SourceType::Text);
    assert_eq!(rec.source_uri.as_deref(), Some("notes.txt"));
    assert_eq!(rec.mime_type.as_deref(), Some("text/plain"));
    assert_eq!(rec.digest, "5cec375183cf251b225ca06f9989887976687d2c8010c5bf46aa47c3cfcaa8ed");
    assert_eq!(rec.chunk_index, 2);
    assert_eq!(rec.text, "hello world");
    assert!(rec.page.is_none() && rec.path.is_none() && rec.language.is_none() && rec.title.is_none());
    assert!(rec.tags.is_empty());
    assert_eq!(rec.created_at, T0);
}

#[test]
fn embedding_count_mismatch_is_a_provider_error() {
    match IngestPlanner::check_embedding_count(3, 1) {
        Err(CoreError::Provider(m)) => assert_eq!(m, "embedding count mismatch: expected 3, got 1"),
        other => panic!("unexpected {:?}", other),
    }
    assert!(IngestPlanner::check_embedding_count(2, 2).is_ok());
    let req = request(Some("x"));
    let err = IngestPlanner::batch_records(&req, &None, vec![chunk("a", 0), chunk("b", 1)], 1, T0).unwrap_err();
    assert_eq!(err, CoreError::Provider("embedding count mismatch: expected 2, got 1".to_string()));
}

#[test]
fn assemble_records_keeps_group_order_and_stops_at_first_failure() {
    let req = request(Some("x"));
    let ok = IngestPlanner::assemble_records(
        &req,
        &None,
        vec![Ok((vec![chunk("a", 0), chunk("b", 1)], 2)), Ok((vec![chunk("c", 2)], 1))],
        T0,
    )
    .unwrap();
    let got: Vec<(&str, u32)> = ok.iter().map(|r| (r.text.as_str(), r.chunk_index)).collect();
    assert_eq!(got, vec![("a", 0), ("b", 1), ("c", 2)]);

    let err = IngestPlanner::assemble_records(
        &req,
        &None,
        vec![
            Ok((vec![chunk("a", 0)], 1)),
            Ok((vec![chunk("b", 1)], 0)),
            Err(CoreError::Provider("late".to_string())),
        ],
        T0,
    )
    .unwrap_err();
    assert_eq!(err, CoreError::Provider("embedding count mismatch: expected 1, got 0".to_string()));

    let err = IngestPlanner::assemble_records(
        &req,
        &None,
        vec![Err(CoreError::NotImplemented("pending".to_string())), Ok((vec![chunk("b", 1)], 0))],
        T0,
    )
    .unwrap_err();
    assert_eq!(err, CoreError::NotImplemented("pending".to_string()));
}

#[test]
fn totals_and_response() {
    assert_eq!(IngestPlanner::total_written(&vec![100, 100, 37]), 237);
    assert_eq!(IngestPlanner::total_written(&vec![]), 0);
    let resp = IngestPlanner::response(&request(Some("x")), 237);
    assert_eq!(resp.asset_id.0, "asset-1");
    assert_eq!(resp.chunks_written, 237);
}

#[test]
fn reingesting_the_same_chunk_lands_on_the_same_point() {
    let first = IngestPlanner::chunk_record(&request(Some("x")), &None, chunk("hello world", 2), T0);
    let later = Timestamp { seconds: 1_800_000_000, nanos: 9 };
    let mut other = request(Some("y"));
    other.source_uri = None;
    let second = IngestPlanner::chunk_record(&other, &Some(ActorId("someone".to_string())), chunk("hello world", 2), later);
    let id = |r: &rag::domain::ChunkRecord| point_id(&r.tenant_id.0, &r.namespace.0, &r.asset_id.0, r.chunk_index, &r.digest);
    assert_eq!(id(&first), id(&second));
    let moved = IngestPlanner::chunk_record(&request(Some("x")), &None, chunk("hello world", 3), T0);
    assert_ne!(id(&first), id(&moved));
}

#[test]
fn records_assembled_now_share_one_clock_reading() {
    let req = request(Some("x"));
    let recs = IngestPlanner::assemble_records_now(
        &req,
        &None,
        vec![Ok((vec![chunk("a", 0), chunk("b", 1)], 2))],
    )
    .unwrap();
    assert_eq!(recs.len(), 2);
    assert_eq!(recs[0].created_at, recs[1].created_at);
    assert!(recs[0].created_at.seconds > 1_700_000_000);
}

#[test]
fn ingest_stores_every_window() {
    let req = request(Some("hello world"));
    let batches = planner(5, 2, 2).plan(&req).unwrap();
    let outcomes = batches.into_iter().map(|b| { let n = b.len(); Ok((b, n)) }).collect();
    let records = IngestPlanner::assemble_records(&req, &None, outcomes, T0).unwrap();
    let got: Vec<(&str, u32)> = records.iter().map(|r| (r.text.as_str(), r.chunk_index)).collect();
    assert_eq!(got, vec![("hello", 0), ("lo wo", 1), ("world", 2)]);
    assert!(records.iter().all(|r| r.asset_id.0 == "asset-1" && r.tenant_id.0 == "tenant-a"));
}

#[test]
fn digests_and_point_ids_have_fixed_shapes() {
    let d = chunk_digest(&scope(), &AssetId("asset-1".to_string()), "", 0);
    assert_eq!(d.len(), 64);
    assert!(d.chars().all(|c| c.is_ascii_digit() || ('a'..='f').contains(&c)));
    let id = point_id("t", "n", "a", 7, &d);
    assert_eq!(id.len(), 36);
    assert_eq!(id.chars().nth(14), Some('5'));
    assert_eq!(id.matches('-').count(), 4);
}

#[test]
fn blank_content_is_refused_even_without_a_batch_size() {
    let p = planner(5, 2, 0);
    assert_eq!(
        p.plan(&request(Some("  "))).unwrap_err(),
        CoreError::Validation("ingest content cannot be empty".to_string())
    );
}

#[test]
fn service_chunker_settings() {
    assert_eq!(rag::chunking::DEFAULT_CHUNK_SIZE, 1000);
    assert_eq!(rag::chunking::DEFAULT_CHUNK_OVERLAP, 200);
}
