//! The ingest pipeline's rules: which content may be ingested, how chunks are
//! grouped for embedding and storing, what each stored record holds, and what
//! the caller is told at the end.

use vstd::prelude::*;
use crate::chunking::{Chunk, RecursiveChunker, chunk_texts, chunk_windows};
use crate::domain::{
    ActorId, ChunkRecord, CoreError, Fault, IngestRequest, IngestResponse, Timestamp,
    duplicate_actor, duplicate_text,
};
use crate::identity::{chunk_digest, chunk_digest_text};
use crate::storage::point_id_of;
use crate::text::{concat, decimal, decimal_string, is_blank, is_blank_seq};

verus! {

/// `items` cut, in order, into groups of `size` (the last group may be shorter).
pub open spec fn batches_of<T>(items: Seq<T>, size: nat) -> Seq<Seq<T>>
    decreases items.len(),
{
    if items.len() == 0 || size == 0 {
        Seq::empty()
    } else if items.len() <= size {
        seq![items]
    } else {
        seq![items.take(size as int)] + batches_of(items.skip(size as int), size)
    }
}

pub open spec fn views_of<T>(batches: Seq<Vec<T>>) -> Seq<Seq<T>> {
    batches.map_values(|b: Vec<T>| b@)
}

/// Cuts `items`, in order, into groups of `size`; only the last group may be
/// shorter, and no group is empty.
pub fn split_batches<T>(items: Vec<T>, size: usize) -> (r: Vec<Vec<T>>)
    requires
        size > 0,
    ensures
        views_of(r@) == batches_of(items@, size as nat),
{
    let ghost all = batches_of(items@, size as nat);
    let mut out: Vec<Vec<T>> = Vec::new();
    let mut rest = items;
    assert(views_of(out@) =~= Seq::<Seq<T>>::empty());
    while rest.len() > size
        invariant
            size > 0,
            views_of(out@) + batches_of(rest@, size as nat) == all,
        decreases rest.len(),
    {
        let ghost before = rest@;
        let tail = rest.split_off(size);
        assert(before.take(size as int) =~= rest@);
        assert(before.skip(size as int) =~= tail@);
        let ghost prev = views_of(out@);
        out.push(rest);
        assert(views_of(out@) =~= prev.push(before.take(size as int)));
        assert(batches_of(before, size as nat) =~= seq![before.take(size as int)] + batches_of(
            before.skip(size as int),
            size as nat,
        ));
        assert(views_of(out@) + batches_of(tail@, size as nat) =~= prev + batches_of(
            before,
            size as nat,
        ));
        rest = tail;
    }
    if rest.len() > 0 {
        let ghost last = rest@;
        let ghost prev = views_of(out@);
        out.push(rest);
        assert(views_of(out@) =~= prev.push(last));
        assert(batches_of(last, size as nat) =~= seq![last]);
        assert(views_of(out@) =~= prev + batches_of(last, size as nat));
    } else {
        assert(batches_of(rest@, size as nat) =~= Seq::<Seq<T>>::empty());
        assert(views_of(out@) =~= views_of(out@) + Seq::<Seq<T>>::empty());
    }
    out
}

/// Joining the groups back gives the items, and no group holds more than `size`
/// or fewer than one item.
pub proof fn law_batches_partition<T>(items: Seq<T>, size: nat)
    requires
        size > 0,
    ensures
        flatten_seqs(batches_of(items, size)) == items,
        forall|i: int|
            0 <= i < batches_of(items, size).len() ==> 1 <= (#[trigger] batches_of(
                items,
                size,
            )[i]).len() <= size,
    decreases items.len(),
{
    let b = batches_of(items, size);
    if items.len() == 0 {
        assert(b =~= Seq::<Seq<T>>::empty());
        assert(flatten_seqs(b) =~= items);
    } else if items.len() <= size {
        assert(b.drop_first() =~= Seq::<Seq<T>>::empty());
        assert(flatten_seqs(b.drop_first()) =~= Seq::<T>::empty());
        assert(flatten_seqs(b) =~= items + Seq::<T>::empty());
    } else {
        law_batches_partition(items.skip(size as int), size);
        let rest = batches_of(items.skip(size as int), size);
        assert(b.drop_first() =~= rest);
        assert(items.take(size as int) + items.skip(size as int) =~= items);
        assert forall|i: int| 0 <= i < b.len() implies 1 <= (#[trigger] b[i]).len() <= size by {
            if i > 0 {
                assert(b[i] == rest[i - 1]);
            }
        }
    }
}

/// The items of a list of groups, group after group.
pub open spec fn flatten_seqs<T>(groups: Seq<Seq<T>>) -> Seq<T>
    decreases groups.len(),
{
    if groups.len() == 0 {
        Seq::empty()
    } else {
        groups[0] + flatten_seqs(groups.drop_first())
    }
}

/// The sum of a list of counts.
pub open spec fn sum_counts(counts: Seq<usize>) -> nat
    decreases counts.len(),
{
    if counts.len() == 0 {
        0
    } else {
        sum_counts(counts.drop_last()) + counts.last() as nat
    }
}

/// The settings of the ingest pipeline: the chunker, the embedding model, and
/// how many chunks go into one embedding call and one storage call.
#[derive(Debug)]
pub struct IngestPlanner {
    pub chunker: RecursiveChunker,
    pub model: String,
    pub embed_batch_size: usize,
    pub upsert_batch_size: usize,
}

pub open spec fn ingest_fault(request: IngestRequest) -> Option<Fault> {
    match request.content {
        Some(c) => if is_blank_seq(c@) {
            Some(Fault::Validation("ingest content cannot be empty"@))
        } else {
            None
        },
        None => Some(Fault::Validation("ingest content cannot be empty"@)),
    }
}

pub open spec fn embedding_mismatch_message(expected: nat, got: nat) -> Seq<char> {
    "embedding count mismatch: expected "@ + decimal(expected) + ", got "@ + decimal(got)
}

/// What the stored record of one chunk holds: the request's scope, asset,
/// source and MIME type, the caller as actor, the chunk's text, position and
/// digest, no page, path, language, title or tags, and the given time.
pub open spec fn record_of(
    request: IngestRequest,
    actor: Option<ActorId>,
    text: Seq<char>,
    chunk_index: u32,
    created_at: Timestamp,
    r: ChunkRecord,
) -> bool {
    &&& r.tenant_id == request.scope.tenant_id
    &&& r.namespace == request.scope.namespace
    &&& r.asset_id == request.asset_id
    &&& r.actor_id == actor
    &&& r.source_type == request.source_type
    &&& r.source_uri == request.source_uri
    &&& r.digest@ == chunk_digest_text(request.scope, request.asset_id, text, chunk_index)
    &&& r.chunk_index == chunk_index
    &&& r.page is None
    &&& r.path is None
    &&& r.language is None
    &&& r.mime_type == request.mime_type
    &&& r.title is None
    &&& r.text@ == text
    &&& r.tags@.len() == 0
    &&& r.created_at == created_at
}

impl IngestPlanner {
    /// Checks the content of an ingest request, cuts it into chunks and groups
    /// the chunks for embedding, in order.
    pub fn plan(&self, request: &IngestRequest) -> (r: Result<Vec<Vec<Chunk>>, CoreError>)
        requires
            ingest_fault(*request) is None ==> self.embed_batch_size > 0 && chunk_windows(
                request.content->0@,
                self.chunker.size(),
                self.chunker.overlap(),
            ).len() <= u32::MAX,
        ensures
            match r {
                Ok(batches) => {
                    &&& ingest_fault(*request) is None
                    &&& chunk_texts(flatten_seqs(views_of(batches@))) == chunk_windows(
                        request.content->0@,
                        self.chunker.size(),
                        self.chunker.overlap(),
                    )
                    &&& forall|i: int|
                        0 <= i < flatten_seqs(views_of(batches@)).len() ==> (#[trigger] flatten_seqs(
                            views_of(batches@),
                        )[i]).chunk_index == i
                    &&& forall|i: int|
                        0 <= i < batches@.len() ==> 1 <= (#[trigger] batches@[i])@.len()
                            <= self.embed_batch_size
                    &&& views_of(batches@) == batches_of(
                        flatten_seqs(views_of(batches@)),
                        self.embed_batch_size as nat,
                    )
                },
                Err(e) => ingest_fault(*request) == Some(e@),
            },
    {
        let text = match &request.content {
            Some(c) => c,
            None => {
                return Err(CoreError::Validation("ingest content cannot be empty".to_owned()));
            },
        };
        if is_blank(text.as_str()) {
            return Err(CoreError::Validation("ingest content cannot be empty".to_owned()));
        }
        let chunks = self.chunker.chunk_text(text.as_str());
        let ghost cs = chunks@;
        let batches = split_batches(chunks, self.embed_batch_size);
        proof {
            law_batches_partition(cs, self.embed_batch_size as nat);
            let v = views_of(batches@);
            assert(flatten_seqs(v) == cs);
            assert forall|i: int| 0 <= i < batches@.len() implies 1 <= (#[trigger] batches@[i])@.len()
                <= self.embed_batch_size by {
                assert(v[i] == batches@[i]@);
            }
        }
        Ok(batches)
    }

    /// Refuses an embedding reply whose number of vectors is not the number of
    /// chunks sent.
    pub fn check_embedding_count(expected: usize, got: usize) -> (r: Result<(), CoreError>)
        ensures
            r is Ok <==> expected == got,
            r matches Err(e) ==> e@ == Fault::Provider(
                embedding_mismatch_message(expected as nat, got as nat),
            ),
    {
        if expected != got {
            let a = decimal_string(expected as u64);
            let b = decimal_string(got as u64);
            let m1 = concat("embedding count mismatch: expected ", a.as_str());
            let m2 = concat(m1.as_str(), ", got ");
            let m3 = concat(m2.as_str(), b.as_str());
            return Err(CoreError::Provider(m3));
        }
        Ok(())
    }

    /// The stored record of one chunk of the request's asset.
    pub fn chunk_record(
        request: &IngestRequest,
        actor: &Option<ActorId>,
        chunk: Chunk,
        created_at: Timestamp,
    ) -> (r: ChunkRecord)
        ensures
            record_of(*request, *actor, chunk.text@, chunk.chunk_index, created_at, r),
    {
        let digest = chunk_digest(&request.scope, &request.asset_id, chunk.text.as_str(), chunk.chunk_index);
        ChunkRecord {
            tenant_id: request.scope.tenant_id.duplicate(),
            namespace: request.scope.namespace.duplicate(),
            asset_id: request.asset_id.duplicate(),
            actor_id: duplicate_actor(actor),
            source_type: request.source_type,
            source_uri: duplicate_text(&request.source_uri),
            digest,
            chunk_index: chunk.chunk_index,
            page: None,
            path: None,
            language: None,
            mime_type: duplicate_text(&request.mime_type),
            title: None,
            text: chunk.text,
            tags: Vec::new(),
            created_at,
        }
    }

    /// The stored records of one embedded group of chunks, in the group's
    /// order, once the embedding reply is checked to hold one vector per chunk.
    pub fn batch_records(
        request: &IngestRequest,
        actor: &Option<ActorId>,
        batch: Vec<Chunk>,
        vectors: usize,
        created_at: Timestamp,
    ) -> (r: Result<Vec<ChunkRecord>, CoreError>)
        ensures
            match r {
                Ok(records) => {
                    &&& vectors == batch@.len()
                    &&& records@.len() == batch@.len()
                    &&& forall|i: int|
                        0 <= i < records@.len() ==> record_of(
                            *request,
                            *actor,
                            batch@[i].text@,
                            batch@[i].chunk_index,
                            created_at,
                            #[trigger] records@[i],
                        )
                },
                Err(e) => vectors != batch@.len() && e@ == Fault::Provider(
                    embedding_mismatch_message(batch@.len() as nat, vectors as nat),
                ),
            },
    {
        Self::check_embedding_count(batch.len(), vectors)?;
        let ghost chunks = batch@;
        let mut records: Vec<ChunkRecord> = Vec::new();
        let mut i: usize = 0;
        for chunk in it: batch
            invariant
                it.seq() == chunks,
                records@.len() == it.index(),
                forall|j: int|
                    0 <= j < records@.len() ==> record_of(
                        *request,
                        *actor,
                        chunks[j].text@,
                        chunks[j].chunk_index,
                        created_at,
                        #[trigger] records@[j],
                    ),
        {
            let rec = Self::chunk_record(request, actor, chunk, created_at);
            records.push(rec);
        }
        Ok(records)
    }

    /// The stored records of every embedded group, group after group, once
    /// each embedding call is checked: the first outcome that failed, or that
    /// holds a number of vectors other than its group's number of chunks,
    /// refuses the whole ingest. Every record is stamped with the clock's
    /// reading.
    pub fn assemble_records_now(
        request: &IngestRequest,
        actor: &Option<ActorId>,
        outcomes: Vec<Result<(Vec<Chunk>, usize), CoreError>>,
    ) -> (r: Result<Vec<ChunkRecord>, CoreError>)
        ensures
            exists|created_at: Timestamp| assembled(*request, *actor, outcomes@, created_at, r),
    {
        let ghost given = outcomes@;
        let created_at = crate::domain::current_time();
        let r = Self::assemble_records(request, actor, outcomes, created_at);
        assert(assembled(*request, *actor, given, created_at, r));
        r
    }

    /// The stored records of every embedded group, stamped `created_at`.
    pub fn assemble_records(
        request: &IngestRequest,
        actor: &Option<ActorId>,
        outcomes: Vec<Result<(Vec<Chunk>, usize), CoreError>>,
        created_at: Timestamp,
    ) -> (r: Result<Vec<ChunkRecord>, CoreError>)
        ensures
            assembled(*request, *actor, outcomes@, created_at, r),
    {
        let ghost all = outcomes@;
        let mut records: Vec<ChunkRecord> = Vec::new();
        for outcome in it: outcomes
            invariant
                it.seq() == all,
                forall|c: int| 0 <= c < it.index() ==> #[trigger] embed_fault(all[c]) is None,
                records@.len() == flatten_seqs(outcome_chunks(all.take(it.index() as int))).len(),
                forall|i: int|
                    0 <= i < records@.len() ==> record_of(
                        *request,
                        *actor,
                        flatten_seqs(outcome_chunks(all.take(it.index() as int)))[i].text@,
                        flatten_seqs(outcome_chunks(all.take(it.index() as int)))[i].chunk_index,
                        created_at,
                        #[trigger] records@[i],
                    ),
        {
            let ghost k = it.index();
            let ghost done = outcome_chunks(all.take(k as int));
            let (batch, vectors) = match outcome {
                Ok(pair) => pair,
                Err(e) => {
                    assert(embed_fault(all[k as int]) == Some(e@));
                    return Err(e);
                },
            };
            let ghost chunks = batch@;
            let part = match Self::batch_records(request, actor, batch, vectors, created_at) {
                Ok(p) => p,
                Err(e) => {
                    assert(embed_fault(all[k as int]) == Some(e@));
                    return Err(e);
                },
            };
            let ghost before = records@;
            let mut part = part;
            records.append(&mut part);
            proof {
                assert(all.take(k + 1) =~= all.take(k as int).push(all[k as int]));
                assert(outcome_chunks(all.take(k + 1)) =~= done.push(chunks));
                lemma_flatten_push(done, chunks);
                let flat = flatten_seqs(outcome_chunks(all.take(k + 1)));
                assert(flat =~= flatten_seqs(done) + chunks);
                assert forall|i: int| 0 <= i < records@.len() implies record_of(
                    *request,
                    *actor,
                    flat[i].text@,
                    flat[i].chunk_index,
                    created_at,
                    #[trigger] records@[i],
                ) by {
                    if i < before.len() {
                        assert(records@[i] == before[i]);
                        assert(flat[i] == flatten_seqs(done)[i]);
                    } else {
                        assert(flat[i] == chunks[i - before.len()]);
                    }
                }
            }
        }
        assert(all.take(all.len() as int) =~= all);
        Ok(records)
    }

    /// The total number of points written, over every storage call.
    pub fn total_written(counts: &Vec<usize>) -> (r: usize)
        requires
            sum_counts(counts@) <= usize::MAX,
        ensures
            r == sum_counts(counts@),
    {
        let mut total: usize = 0;
        let mut i: usize = 0;
        while i < counts.len()
            invariant
                i <= counts@.len(),
                sum_counts(counts@) <= usize::MAX,
                total == sum_counts(counts@.take(i as int)),
            decreases counts.len() - i,
        {
            proof {
                lemma_sum_prefix_bound(counts@, (i + 1) as nat);
                assert(counts@.take(i + 1).drop_last() =~= counts@.take(i as int));
            }
            total = total + counts[i];
            i += 1;
        }
        assert(counts@.take(counts@.len() as int) =~= counts@);
        total
    }

    /// The reply to a finished ingest: the asset and the number of points written.
    pub fn response(request: &IngestRequest, points_written: usize) -> (r: IngestResponse)
        ensures
            r.asset_id == request.asset_id,
            r.chunks_written == points_written,
    {
        IngestResponse { asset_id: request.asset_id.duplicate(), chunks_written: points_written }
    }
}

/// Re-ingesting overwrites instead of duplicating: the records of the same
/// chunk of the same asset, in the same scope, land on the same stored point,
/// whoever sends them and whenever.
pub proof fn law_reingest_lands_on_same_points(
    first: IngestRequest,
    second: IngestRequest,
    actor1: Option<ActorId>,
    actor2: Option<ActorId>,
    text: Seq<char>,
    chunk_index: u32,
    t1: Timestamp,
    t2: Timestamp,
    r1: ChunkRecord,
    r2: ChunkRecord,
)
    requires
        first.scope == second.scope,
        first.asset_id == second.asset_id,
        record_of(first, actor1, text, chunk_index, t1, r1),
        record_of(second, actor2, text, chunk_index, t2, r2),
    ensures
        point_id_of(r1) == point_id_of(r2),
{
}

/// The outcome of assembling the records of embedded groups: when every
/// embedding call succeeded with one vector per chunk, the records of all their
/// chunks, group after group; otherwise the fault of the first outcome that has one.
pub open spec fn assembled(
    request: IngestRequest,
    actor: Option<ActorId>,
    outcomes: Seq<Result<(Vec<Chunk>, usize), CoreError>>,
    created_at: Timestamp,
    r: Result<Vec<ChunkRecord>, CoreError>,
) -> bool {
    match r {
        Ok(records) => {
            &&& forall|b: int| 0 <= b < outcomes.len() ==> #[trigger] embed_fault(outcomes[b]) is None
            &&& records@.len() == flatten_seqs(outcome_chunks(outcomes)).len()
            &&& forall|i: int|
                0 <= i < records@.len() ==> record_of(
                    request,
                    actor,
                    flatten_seqs(outcome_chunks(outcomes))[i].text@,
                    flatten_seqs(outcome_chunks(outcomes))[i].chunk_index,
                    created_at,
                    #[trigger] records@[i],
                )
        },
        Err(e) => exists|b: int|
            0 <= b < outcomes.len() && #[trigger] embed_fault(outcomes[b]) == Some(e@)
                && forall|c: int| 0 <= c < b ==> embed_fault(outcomes[c]) is None,
    }
}

/// Ingest stores the content cut into windows: when the planned groups of
/// chunks are embedded with one vector per chunk, the assembled records hold
/// the windows of the content, in order, each with its position.
pub proof fn law_ingest_stores_every_window(
    request: IngestRequest,
    actor: Option<ActorId>,
    chunk_size: nat,
    chunk_overlap: nat,
    groups: Seq<Seq<Chunk>>,
    outcomes: Seq<Result<(Vec<Chunk>, usize), CoreError>>,
    created_at: Timestamp,
    records: Vec<ChunkRecord>,
)
    requires
        request.content is Some,
        chunk_texts(flatten_seqs(groups)) == chunk_windows(
            request.content->0@,
            chunk_size,
            chunk_overlap,
        ),
        forall|i: int|
            0 <= i < flatten_seqs(groups).len() ==> (#[trigger] flatten_seqs(groups)[i]).chunk_index
                == i,
        outcome_chunks(outcomes) == groups,
        assembled(request, actor, outcomes, created_at, Ok(records)),
    ensures
        records@.len() == chunk_windows(request.content->0@, chunk_size, chunk_overlap).len(),
        forall|i: int|
            0 <= i < records@.len() ==> {
                &&& (#[trigger] records@[i]).text@ == chunk_windows(
                    request.content->0@,
                    chunk_size,
                    chunk_overlap,
                )[i]
                &&& records@[i].chunk_index == i
                &&& records@[i].tenant_id == request.scope.tenant_id
                &&& records@[i].namespace == request.scope.namespace
                &&& records@[i].asset_id == request.asset_id
            },
{
    let flat = flatten_seqs(groups);
    assert forall|i: int| 0 <= i < records@.len() implies {
        &&& (#[trigger] records@[i]).text@ == chunk_windows(
            request.content->0@,
            chunk_size,
            chunk_overlap,
        )[i]
        &&& records@[i].chunk_index == i
        &&& records@[i].tenant_id == request.scope.tenant_id
        &&& records@[i].namespace == request.scope.namespace
        &&& records@[i].asset_id == request.asset_id
    } by {
        assert(record_of(request, actor, flat[i].text@, flat[i].chunk_index, created_at, records@[i]));
        assert(chunk_texts(flat)[i] == flat[i].text@);
    }
}

/// Why one embedding call's outcome stops the ingest, if it does: its own
/// failure, or a number of vectors other than the number of chunks sent.
pub open spec fn embed_fault(o: Result<(Vec<Chunk>, usize), CoreError>) -> Option<Fault> {
    match o {
        Ok((batch, vectors)) => if vectors == batch@.len() {
            None
        } else {
            Some(Fault::Provider(embedding_mismatch_message(batch@.len() as nat, vectors as nat)))
        },
        Err(e) => Some(e@),
    }
}

/// The chunks each outcome was for (none for a failed call).
pub open spec fn outcome_chunks(os: Seq<Result<(Vec<Chunk>, usize), CoreError>>) -> Seq<Seq<Chunk>> {
    os.map_values(
        |o: Result<(Vec<Chunk>, usize), CoreError>|
            match o {
                Ok((batch, _)) => batch@,
                Err(_) => Seq::<Chunk>::empty(),
            },
    )
}

proof fn lemma_flatten_push<T>(groups: Seq<Seq<T>>, last: Seq<T>)
    ensures
        flatten_seqs(groups.push(last)) == flatten_seqs(groups) + last,
    decreases groups.len(),
{
    if groups.len() == 0 {
        let g = groups.push(last);
        assert(g.drop_first() =~= Seq::<Seq<T>>::empty());
        assert(g[0] == last);
        assert(flatten_seqs(g.drop_first()) =~= Seq::<T>::empty());
        assert(flatten_seqs(g) =~= last + Seq::<T>::empty());
        assert(flatten_seqs(groups) + last =~= last);
    } else {
        lemma_flatten_push(groups.drop_first(), last);
        assert(groups.push(last).drop_first() =~= groups.drop_first().push(last));
        assert(flatten_seqs(groups.push(last)) =~= groups[0] + (flatten_seqs(groups.drop_first()) + last));
    }
}

proof fn lemma_sum_prefix_bound(counts: Seq<usize>, n: nat)
    requires
        n <= counts.len(),
    ensures
        sum_counts(counts.take(n as int)) <= sum_counts(counts),
    decreases counts.len(),
{
    if n < counts.len() {
        lemma_sum_prefix_bound(counts.drop_last(), n);
        assert(counts.drop_last().take(n as int) =~= counts.take(n as int));
    } else {
        assert(counts.take(n as int) =~= counts);
    }
}

} // verus!
