//! What holds of every embed call, stated of [`RunView`].
use vstd::prelude::*;

use crate::run::{ActionView, EmbedEvent, RunView, Stage};

verus! {

/// A run stays valid: whatever the caller answers, the texts are taken in
/// order, and as many vectors have been read as there are sequences before the
/// one that is waited for.
pub proof fn law_step_keeps_run_valid(run: RunView, event: EmbedEvent)
    requires
        run.valid(),
        run.expects(event),
    ensures
        run.step(event).0.valid(),
{
    match event {
        EmbedEvent::Locked => {
            lemma_to_next_text_valid(run);
        },
        EmbedEvent::Tokenized(tokens) => {
            let next = RunView {
                tokens: run.tokens.push(crate::run::clipped(tokens@, run.n_ctx)),
                ..run
            };
            lemma_to_next_text_valid(next);
        },
        EmbedEvent::Encoded => {
            lemma_to_sequence_valid(run, run.stage->Encode_bucket, 0);
        },
        EmbedEvent::Pooled { raw, norm } => {
            if crate::vector::raw_vector_error(raw@, run.dim, norm) is None {
                let next = RunView {
                    pooled: run.pooled.push(
                        crate::vector::normalized(raw@, run.dim as nat, norm),
                    ),
                    ..run
                };
                lemma_to_sequence_valid(next, run.stage->Read_bucket, run.stage->seq + 1);
            }
        },
        _ => {},
    }
}

proof fn lemma_to_next_text_valid(run: RunView)
    requires
        run.at(Stage::Ended).valid(),
        run.pooled.len() == 0,
    ensures
        run.to_next_text().0.valid(),
{
    if run.tokens.len() >= run.n_texts {
        assert(crate::bucket::items_before(run.buckets(), 0) == 0);
        lemma_to_bucket_valid(run, 0);
    }
}

proof fn lemma_to_bucket_valid(run: RunView, b: int)
    requires
        run.at(Stage::Ended).valid(),
        run.tokens.len() == run.n_texts,
        0 <= b <= run.buckets().len(),
        run.pooled.len() == crate::bucket::items_before(run.buckets(), b),
    ensures
        run.to_bucket(b).0.valid(),
{
    let next = run.to_bucket(b).0;
    assert(next.buckets() == run.buckets());
}

proof fn lemma_to_sequence_valid(run: RunView, b: int, s: int)
    requires
        run.at(Stage::Ended).valid(),
        run.valid_bucket(b, s),
        0 <= s <= run.buckets()[b].len(),
    ensures
        run.to_sequence(b, s).0.valid(),
{
    let next = run.to_sequence(b, s).0;
    assert(next.buckets() == run.buckets());
    if s == run.buckets()[b].len() {
        lemma_to_bucket_valid(run, b + 1);
    }
}

/// The run once `events` were answered, one after the other.
pub open spec fn run_after(run: RunView, events: Seq<EmbedEvent>) -> RunView
    decreases events.len(),
{
    if events.len() == 0 {
        run
    } else {
        run_after(run, events.drop_last()).step(events.last()).0
    }
}

/// Each of `events` answers what the run asked for by then.
pub open spec fn answers(run: RunView, events: Seq<EmbedEvent>) -> bool
    decreases events.len(),
{
    events.len() == 0 || (answers(run, events.drop_last()) && run_after(
        run,
        events.drop_last(),
    ).expects(events.last()))
}

/// What the run asks for after the last of `events`.
pub open spec fn last_action(run: RunView, events: Seq<EmbedEvent>) -> ActionView {
    run_after(run, events.drop_last()).step(events.last()).1
}

/// The tokens that `events` brought, cut to `n_ctx`.
pub open spec fn tokens_of(events: Seq<EmbedEvent>, n_ctx: usize) -> Seq<Seq<i32>>
    decreases events.len(),
{
    if events.len() == 0 {
        Seq::empty()
    } else {
        let earlier = tokens_of(events.drop_last(), n_ctx);
        match events.last() {
            EmbedEvent::Tokenized(tokens) => earlier.push(
                crate::run::clipped(tokens@, n_ctx),
            ),
            _ => earlier,
        }
    }
}

/// The sound vectors that `events` brought, normalized.
pub open spec fn vectors_of(events: Seq<EmbedEvent>, dim: usize) -> Seq<
    crate::vector::EmbeddingView,
>
    decreases events.len(),
{
    if events.len() == 0 {
        Seq::empty()
    } else {
        let earlier = vectors_of(events.drop_last(), dim);
        match events.last() {
            EmbedEvent::Pooled { raw, norm } => if crate::vector::raw_vector_error(
                raw@,
                dim,
                norm,
            ) is None {
                earlier.push(crate::vector::normalized(raw@, dim as nat, norm))
            } else {
                earlier
            },
            _ => earlier,
        }
    }
}

pub(crate) proof fn lemma_run_after(run: RunView, events: Seq<EmbedEvent>)
    requires
        run.stage is New,
        run.valid(),
        answers(run, events),
    ensures
        ({
            let now = run_after(run, events);
            &&& now.valid()
            &&& now.n_texts == run.n_texts
            &&& now.dim == run.dim
            &&& now.n_ctx == run.n_ctx
            &&& now.max_seqs == run.max_seqs
            &&& now.tokens == tokens_of(events, run.n_ctx)
            &&& now.pooled == vectors_of(events, run.dim)
        }),
    decreases events.len(),
{
    if events.len() > 0 {
        lemma_run_after(run, events.drop_last());
        law_step_keeps_run_valid(run_after(run, events.drop_last()), events.last());
    } else {
        assert(run.tokens =~= Seq::empty());
        assert(run.pooled =~= Seq::empty());
    }
}

pub(crate) proof fn lemma_finish(run: RunView, event: EmbedEvent)
    requires
        run.valid(),
        run.expects(event),
        run.step(event).1 is Finish,
    ensures
        ({
            let next = run.step(event).0;
            &&& next.tokens.len() == run.n_texts
            &&& next.pooled.len() == crate::run::pending(next.tokens).len()
            &&& run.step(event).1 == ActionView::Finish(
                crate::run::output(run.dim, next.tokens, next.pooled),
            )
        }),
{
    let next = run.step(event).0;
    let counts = crate::run::pending_counts(next.tokens);
    law_step_keeps_run_valid(run, event);
    crate::run::lemma_pending_counts(next.tokens, next.n_ctx);
    crate::bucket::law_packing_preserves_order(counts, next.n_ctx, next.max_seqs);
    let buckets = next.buckets();
    assert(buckets == crate::bucket::packing(counts, next.n_ctx, next.max_seqs));
    match event {
        EmbedEvent::Locked => {
            assert(crate::bucket::items_before(buckets, 0) == 0);
            assert(run.buckets() == buckets);
        },
        EmbedEvent::Tokenized(tokens) => {
            assert(crate::bucket::items_before(buckets, 0) == 0);
            assert(buckets.len() == 0);
        },
        EmbedEvent::Encoded => {
            let b = run.stage->Encode_bucket;
            assert(run.buckets() == buckets);
            assert(crate::bucket::items_before(buckets, b + 1) == crate::bucket::items_before(
                buckets,
                b,
            ) + buckets[b].len());
        },
        EmbedEvent::Pooled { raw, norm } => {
            let b = run.stage->Read_bucket;
            assert(run.buckets() == buckets);
            assert(crate::bucket::items_before(buckets, b + 1) == crate::bucket::items_before(
                buckets,
                b,
            ) + buckets[b].len());
        },
        _ => {},
    }
}

/// A call that succeeds returns one vector per text, in the order of the
/// texts, each of the configured dimension: the zero vector for a text without
/// tokens, and for any other the normalized vector that was read for it.
pub proof fn law_finished_run(
    n_texts: usize,
    dim: usize,
    n_ctx: usize,
    max_seqs: usize,
    events: Seq<EmbedEvent>,
    out: Seq<crate::vector::EmbeddingView>,
)
    requires
        events.len() > 0,
        answers(RunView::initial(n_texts as int, dim, n_ctx, max_seqs), events),
        last_action(RunView::initial(n_texts as int, dim, n_ctx, max_seqs), events)
            == ActionView::Finish(out),
    ensures
        out.len() == n_texts,
        tokens_of(events, n_ctx).len() == n_texts,
        out == crate::run::output(dim, tokens_of(events, n_ctx), vectors_of(events, dim)),
        vectors_of(events, dim).len() == crate::run::pending(tokens_of(events, n_ctx)).len(),
        forall|i: int| 0 <= i < n_texts ==> (#[trigger] out[i]).values.len() == dim,
{
    let start = RunView::initial(n_texts as int, dim, n_ctx, max_seqs);
    let tokens = tokens_of(events, n_ctx);
    let pooled = vectors_of(events, dim);
    lemma_run_after(start, events.drop_last());
    lemma_run_after(start, events);
    lemma_finish(run_after(start, events.drop_last()), events.last());
    crate::run::lemma_pending(tokens);
    assert forall|i: int| 0 <= i < n_texts implies (#[trigger] out[i]).values.len() == dim by {
        if tokens[i].len() > 0 {
            assert(pooled[crate::run::pending_before(tokens, i)].values.len() == dim);
        }
    }
}

/// Every batch is one that the context can hold: its tokens are no more than
/// the context window, its sequences no more than the limit where there is a
/// positive one, and the space it asks for is exactly what its sequences fill.
/// No sequence is empty, they are numbered from zero, and all their tokens are
/// outputs.
pub proof fn law_batch_fits_the_context(run: RunView, event: EmbedEvent)
    requires
        run.valid(),
        run.expects(event),
        run.step(event).1 is BuildBatch,
    ensures
        ({
            let batch = run.step(event).1->BuildBatch_0;
            &&& batch.total_tokens <= run.n_ctx
            &&& run.max_seqs > 0 ==> 0 < batch.sequences.len() <= run.max_seqs
            &&& batch.total_tokens == tokens_in(batch.sequences)
            &&& forall|s: int|
                0 <= s < batch.sequences.len() ==> {
                    let sequence = #[trigger] batch.sequences[s];
                    &&& 0 < sequence.tokens.len() <= run.n_ctx
                    &&& sequence.seq_id == s as usize as i32
                    &&& sequence.logits_all
                }
        }),
{
    let next = run.step(event).0;
    law_step_keeps_run_valid(run, event);
    let b = next.stage->Build_bucket;
    let counts = crate::run::pending_counts(next.tokens);
    let buckets = next.buckets();
    let bucket = buckets[b];
    let batch = next.batch(b);
    assert(run.step(event).1 == ActionView::BuildBatch(batch)) by {
        lemma_build_action(run, event);
    }
    crate::run::lemma_pending_counts(next.tokens, next.n_ctx);
    crate::bucket::law_packing_preserves_order(counts, next.n_ctx, next.max_seqs);
    crate::bucket::law_buckets_fit_the_budget(counts, next.n_ctx, next.max_seqs, b);
    crate::bucket::lemma_partition_bucket(buckets, counts.len() as int, b);
    if run.max_seqs > 0 {
        crate::bucket::law_packing_is_greedy(counts, next.n_ctx, next.max_seqs);
        assert(crate::bucket::within_bounds(counts, next.n_ctx, next.max_seqs, bucket));
    }
    assert forall|s: int| 0 <= s < bucket.len() implies #[trigger] bucket[s] < counts.len() by {
        assert(buckets[b][s] == crate::bucket::items_before(buckets, b) + s);
    }
    lemma_tokens_in_batch(next, b, bucket.len() as int);
    assert(batch.sequences.take(bucket.len() as int) =~= batch.sequences);
    assert(bucket.take(bucket.len() as int) =~= bucket);
}

/// The tokens of all of `sequences` together.
pub open spec fn tokens_in(sequences: Seq<crate::run::BatchSequenceView>) -> int
    decreases sequences.len(),
{
    if sequences.len() == 0 {
        0
    } else {
        tokens_in(sequences.drop_last()) + sequences.last().tokens.len()
    }
}

proof fn lemma_tokens_in_batch(run: RunView, b: int, s: int)
    requires
        0 <= s <= run.buckets()[b].len(),
        forall|j: int|
            0 <= j < run.buckets()[b].len() ==> #[trigger] run.buckets()[b][j]
                < crate::run::pending_counts(run.tokens).len(),
        forall|k: int|
            0 <= k < crate::run::pending(run.tokens).len() ==> (#[trigger] crate::run::pending(
                run.tokens,
            )[k]).len() <= run.n_ctx,
    ensures
        tokens_in(run.batch(b).sequences.take(s)) == crate::bucket::bucket_tokens(
            crate::run::pending_counts(run.tokens),
            run.buckets()[b].take(s),
        ),
    decreases s,
{
    let bucket = run.buckets()[b];
    let sequences = run.batch(b).sequences;
    if s > 0 {
        lemma_tokens_in_batch(run, b, s - 1);
        assert(sequences.take(s).drop_last() =~= sequences.take(s - 1));
        assert(bucket.take(s).drop_last() =~= bucket.take(s - 1));
        assert(bucket[s - 1] < crate::run::pending_counts(run.tokens).len());
        assert(crate::run::pending(run.tokens)[bucket[s - 1] as int].len() <= run.n_ctx);
    }
}

pub(crate) proof fn lemma_build_action(run: RunView, event: EmbedEvent)
    requires
        run.valid(),
        run.expects(event),
        run.step(event).1 is BuildBatch,
    ensures
        ({
            let next = run.step(event).0;
            &&& next.stage is Build
            &&& run.step(event).1 == ActionView::BuildBatch(next.batch(next.stage->Build_bucket))
            &&& next.n_ctx == run.n_ctx
            &&& next.max_seqs == run.max_seqs
        }),
{
    let next = run.step(event).0;
    let b = next.stage->Build_bucket;
    match event {
        EmbedEvent::Locked => {
            assert(run.batch(b) == next.batch(b));
        },
        EmbedEvent::Tokenized(tokens) => {
            let read = RunView {
                tokens: run.tokens.push(crate::run::clipped(tokens@, run.n_ctx)),
                ..run
            };
            assert(read.batch(b) == next.batch(b));
        },
        EmbedEvent::Encoded => {
            assert(run.batch(b) == next.batch(b));
        },
        EmbedEvent::Pooled { raw, norm } => {
            let read = RunView {
                pooled: run.pooled.push(crate::vector::normalized(raw@, run.dim as nat, norm)),
                ..run
            };
            assert(read.batch(b) == next.batch(b));
        },
        _ => {},
    }
}

/// A batch is encoded only right after the KV cache was cleared, and for the
/// bucket that it was cleared for: nothing of an earlier batch, or of an
/// earlier call, is left when the next one is encoded.
pub proof fn law_cache_is_cleared_before_encoding(run: RunView, event: EmbedEvent)
    requires
        run.valid(),
        run.expects(event),
        run.step(event).1 is Encode,
    ensures
        event is KvCacheCleared,
        run.stage is Clear,
        run.step(event).0.stage == (Stage::Encode { bucket: run.stage->Clear_bucket }),
{
}

/// The vector that is read for sequence `seq` of a bucket is kept for the text
/// whose tokens are that sequence of the batch, and it is asked for by the id
/// that the sequence has there.
pub proof fn law_vector_belongs_to_its_text(run: RunView, text: int)
    requires
        run.valid(),
        run.stage is Read,
        0 <= text < run.n_texts,
        run.tokens[text].len() > 0,
        crate::run::pending_before(run.tokens, text) == run.pooled.len(),
    ensures
        run.batch(run.stage->Read_bucket).sequences[run.stage->seq].tokens == run.tokens[text],
        run.to_sequence(run.stage->Read_bucket, run.stage->seq).1 == (ActionView::ReadPooled {
            seq_id: run.batch(run.stage->Read_bucket).sequences[run.stage->seq].seq_id,
        }),
{
    let b = run.stage->Read_bucket;
    let s = run.stage->seq;
    let counts = crate::run::pending_counts(run.tokens);
    crate::run::lemma_pending(run.tokens);
    crate::run::lemma_pending_counts(run.tokens, run.n_ctx);
    crate::bucket::law_packing_preserves_order(counts, run.n_ctx, run.max_seqs);
    assert(run.buckets()[b][s] == crate::bucket::items_before(run.buckets(), b) + s);
    assert(run.tokens[text].len() > 0);
}

/// What is returned for a text rests on its own tokens and on the vector that
/// was read for it: its neighbours and its place among them have no part in it.
pub proof fn law_output_is_per_text(
    dim: usize,
    tokens: Seq<Seq<i32>>,
    pooled: Seq<crate::vector::EmbeddingView>,
    i: int,
)
    requires
        pooled.len() == crate::run::pending(tokens).len(),
        0 <= i < tokens.len(),
    ensures
        ({
            let own = if tokens[i].len() == 0 {
                Seq::empty()
            } else {
                seq![pooled[crate::run::pending_before(tokens, i)]]
            };
            &&& own.len() == crate::run::pending(seq![tokens[i]]).len()
            &&& crate::run::output(dim, seq![tokens[i]], own) =~= seq![
                crate::run::output(dim, tokens, pooled)[i],
            ]
        }),
{
    let alone = seq![tokens[i]];
    crate::run::lemma_pending(alone);
    assert(crate::run::pending_before(alone, 0) == 0);
    assert(crate::run::pending_before(alone, 1) == if tokens[i].len() > 0 {
        1int
    } else {
        0
    });
}

/// How far a run is from its end: compared component by component, from the left.
pub open spec fn distance(run: RunView) -> (int, int, int) {
    let left = |b: int| run.buckets().len() - b;
    let size = |b: int| run.buckets()[b].len() as int;
    match run.stage {
        Stage::New => (4, 0, 0),
        Stage::Lock => (3, 0, 0),
        Stage::Tokenize => (2, run.n_texts - run.tokens.len(), 0),
        Stage::Build { bucket } => (1, left(bucket), size(bucket) + 3),
        Stage::Clear { bucket } => (1, left(bucket), size(bucket) + 2),
        Stage::Encode { bucket } => (1, left(bucket), size(bucket) + 1),
        Stage::Read { bucket, seq } => (1, left(bucket), size(bucket) - seq),
        Stage::Ended => (0, 0, 0),
    }
}

/// Every answer brings a run closer to its end, so every call ends.
pub proof fn law_run_makes_progress(run: RunView, event: EmbedEvent)
    requires
        run.valid(),
        run.expects(event),
    ensures
        ({
            let (a, b, c) = distance(run);
            let (x, y, z) = distance(run.step(event).0);
            &&& x >= 0 && y >= 0 && z >= 0
            &&& x < a || (x == a && y < b) || (x == a && y == b && z < c)
        }),
{
    let next = run.step(event).0;
    law_step_keeps_run_valid(run, event);
    match event {
        EmbedEvent::Tokenized(tokens) => {},
        _ => {
            assert(next.buckets() == run.buckets());
        },
    }
}

/// A run is over when it has finished or failed, and only then; it takes no
/// answer after that.
pub proof fn law_end_is_final(run: RunView, event: EmbedEvent, later: EmbedEvent)
    requires
        run.valid(),
        run.expects(event),
    ensures
        run.step(event).0.stage is Ended <==> (run.step(event).1 is Finish || run.step(
            event,
        ).1 is Fail),
        run.step(event).0.stage is Ended ==> !run.step(event).0.expects(later),
{
}

/// No vector of a call is returned once anything in it has gone wrong: a run
/// fails on exactly the answers that report a failure, and on a vector that
/// does not pass validation.
pub proof fn law_failures_end_the_run(run: RunView, event: EmbedEvent)
    requires
        run.valid(),
        run.expects(event),
    ensures
        run.step(event).1 is Fail <==> match event {
            EmbedEvent::LockPoisoned => true,
            EmbedEvent::TokenizeFailed(_) => true,
            EmbedEvent::BatchFailed(_) => true,
            EmbedEvent::EncodeFailed(_) => true,
            EmbedEvent::ReadFailed(_) => true,
            EmbedEvent::Pooled { raw, norm } => crate::vector::raw_vector_error(
                raw@,
                run.dim,
                norm,
            ) is Some,
            _ => false,
        },
{
}

/// The bucket that the run is at, if it is at one.
pub open spec fn bucket_of(run: RunView) -> Option<int> {
    match run.stage {
        Stage::Build { bucket } => Some(bucket),
        Stage::Clear { bucket } => Some(bucket),
        Stage::Encode { bucket } => Some(bucket),
        Stage::Read { bucket, .. } => Some(bucket),
        _ => None,
    }
}

/// Of what the run asked for in the course of `events`, the last batch to be
/// put together was `batch`, and that after the first `j` of them.
pub open spec fn last_batch_built(
    run: RunView,
    events: Seq<EmbedEvent>,
    batch: crate::run::BatchView,
    j: int,
) -> bool {
    &&& 1 <= j <= events.len()
    &&& last_action(run, events.take(j)) == ActionView::BuildBatch(batch)
    &&& forall|m: int|
        j < m <= events.len() ==> !(#[trigger] last_action(run, events.take(m)) is BuildBatch)
}

/// While a run is at a bucket, the last batch that it asked for is that of the bucket.
pub(crate) proof fn lemma_last_batch_built(run: RunView, events: Seq<EmbedEvent>) -> (j: int)
    requires
        run.stage is New,
        run.valid(),
        answers(run, events),
        bucket_of(run_after(run, events)) is Some,
    ensures
        ({
            let now = run_after(run, events);
            last_batch_built(run, events, now.batch(bucket_of(now)->0), j)
        }),
    decreases events.len(),
{
    let n = events.len() as int;
    let now = run_after(run, events);
    let earlier = events.drop_last();
    let before = run_after(run, earlier);
    let last = events.last();
    let b = bucket_of(now)->0;
    lemma_run_after(run, earlier);
    assert(events.take(n) =~= events);
    assert(last_action(run, events) == before.step(last).1);
    if before.step(last).1 is BuildBatch {
        lemma_build_action(before, last);
        assert(last_batch_built(run, events, now.batch(b), n));
        n
    } else {
        assert(bucket_of(before) == Some(b));
        assert(before.batch(b) == now.batch(b));
        let j = lemma_last_batch_built(run, earlier);
        assert(earlier.take(j) =~= events.take(j));
        assert forall|m: int| j < m <= n implies !(#[trigger] last_action(
            run,
            events.take(m),
        ) is BuildBatch) by {
            if m < n {
                assert(events.take(m) =~= earlier.take(m));
            }
        }
        j
    }
}

/// A run that waits for a vector has asked for it.
pub(crate) proof fn lemma_read_was_asked(run: RunView, events: Seq<EmbedEvent>)
    requires
        run.stage is New,
        run.valid(),
        answers(run, events),
        run_after(run, events).stage is Read,
    ensures
        last_action(run, events) == (ActionView::ReadPooled {
            seq_id: run_after(run, events).stage->seq as usize as i32,
        }),
{
    lemma_run_after(run, events.drop_last());
}

/// The tokens of later texts come behind those of earlier ones.
proof fn lemma_tokens_of_prefix(events: Seq<EmbedEvent>, n_ctx: usize, k: int)
    requires
        0 <= k <= events.len(),
    ensures
        tokens_of(events.take(k), n_ctx).len() <= tokens_of(events, n_ctx).len(),
        tokens_of(events.take(k), n_ctx) == tokens_of(events, n_ctx).take(
            tokens_of(events.take(k), n_ctx).len() as int,
        ),
    decreases events.len(),
{
    let part = tokens_of(events.take(k), n_ctx);
    if k < events.len() {
        assert(events.drop_last().take(k) =~= events.take(k));
        lemma_tokens_of_prefix(events.drop_last(), n_ctx, k);
    } else {
        assert(events.take(k) =~= events);
    }
    assert(part =~= tokens_of(events, n_ctx).take(part.len() as int));
}

/// Every vector of a run came with one of the answers, at which point there
/// were as many as stand before it.
proof fn lemma_vector_source(
    run: RunView,
    events: Seq<EmbedEvent>,
    dim: usize,
    p: int,
) -> (k: int)
    requires
        answers(run, events),
        0 <= p < vectors_of(events, dim).len(),
    ensures
        0 <= k < events.len(),
        answers(run, events.take(k)),
        run_after(run, events.take(k)).expects(events[k]),
        vectors_of(events.take(k), dim).len() == p,
        brings(events[k], dim, vectors_of(events, dim)[p]),
    decreases events.len(),
{
    let earlier = events.drop_last();
    let n = earlier.len() as int;
    if p < vectors_of(earlier, dim).len() {
        let k = lemma_vector_source(run, earlier, dim, p);
        assert(earlier.take(k) =~= events.take(k));
        k
    } else {
        assert(events.take(n) =~= earlier);
        n
    }
}

/// `event` is a pooled vector that is sound, and normalizes to `vector`.
pub open spec fn brings(
    event: EmbedEvent,
    dim: usize,
    vector: crate::vector::EmbeddingView,
) -> bool {
    match event {
        EmbedEvent::Pooled { raw, norm } => crate::vector::raw_vector_error(raw@, dim, norm) is None
            && vector == crate::vector::normalized(raw@, dim as nat, norm),
        _ => false,
    }
}

/// Answer `k` is the pooled vector of the text with these `tokens`, and makes
/// it `vector`: the last batch that the run had asked for by then has a
/// sequence with just these tokens, the run had just asked for the pooled
/// vector of that sequence, by the id that it has in the batch, and what came
/// is sound and normalizes to `vector`.
pub open spec fn answer_embeds(
    run: RunView,
    events: Seq<EmbedEvent>,
    k: int,
    dim: usize,
    tokens: Seq<i32>,
    vector: crate::vector::EmbeddingView,
) -> bool {
    &&& 0 < k < events.len()
    &&& brings(events[k], dim, vector)
    &&& exists|batch: crate::run::BatchView, j: int, s: int|
        {
            &&& #[trigger] last_batch_built(run, events.take(k), batch, j)
            &&& 0 <= s < batch.sequences.len()
            &&& (#[trigger] batch.sequences[s]).tokens == tokens
            &&& last_action(run, events.take(k)) == (ActionView::ReadPooled {
                seq_id: batch.sequences[s].seq_id,
            })
        }
}

/// In a call that succeeds, finds the answer that brought the vector of a text
/// with tokens: the run then waited for the sequence that the text belongs to.
pub(crate) proof fn lemma_answer_for_text(
    n_texts: usize,
    dim: usize,
    n_ctx: usize,
    max_seqs: usize,
    events: Seq<EmbedEvent>,
    out: Seq<crate::vector::EmbeddingView>,
    text: int,
) -> (k: int)
    requires
        events.len() > 0,
        answers(RunView::initial(n_texts as int, dim, n_ctx, max_seqs), events),
        last_action(RunView::initial(n_texts as int, dim, n_ctx, max_seqs), events)
            == ActionView::Finish(out),
        0 <= text < n_texts,
        tokens_of(events, n_ctx)[text].len() > 0,
    ensures
        0 < k < events.len(),
        brings(events[k], dim, out[text]),
        ({
            let start = RunView::initial(n_texts as int, dim, n_ctx, max_seqs);
            let now = run_after(start, events.take(k));
            &&& answers(start, events.take(k))
            &&& now.stage is Read
            &&& now.tokens == tokens_of(events, n_ctx)
            &&& now.pooled.len() == crate::run::pending_before(now.tokens, text)
        }),
{
    let start = RunView::initial(n_texts as int, dim, n_ctx, max_seqs);
    let tokens = tokens_of(events, n_ctx);
    law_finished_run(n_texts, dim, n_ctx, max_seqs, events, out);
    crate::run::lemma_pending(tokens);
    let p = crate::run::pending_before(tokens, text);
    assert(tokens[text].len() > 0);
    assert(out[text] == vectors_of(events, dim)[p]);
    let k = lemma_vector_source(start, events, dim, p);
    let sofar = events.take(k);
    let now = run_after(start, sofar);
    lemma_run_after(start, sofar);
    assert(now.stage is Read);
    assert(k > 0) by {
        if k == 0 {
            assert(sofar.len() == 0);
        }
    }
    assert(now.tokens.len() == n_texts);
    lemma_tokens_of_prefix(events, n_ctx, k);
    assert(tokens.take(n_texts as int) =~= tokens);
    k
}

/// Over a whole call that succeeds, every text with tokens gets the vector
/// that was read for its own tokens: among the answers there is one that came
/// for the sequence of a batch which holds exactly the tokens of the text, and
/// that became the vector which is returned for it.
pub proof fn law_every_text_gets_its_own_vector(
    n_texts: usize,
    dim: usize,
    n_ctx: usize,
    max_seqs: usize,
    events: Seq<EmbedEvent>,
    out: Seq<crate::vector::EmbeddingView>,
    text: int,
)
    requires
        events.len() > 0,
        answers(RunView::initial(n_texts as int, dim, n_ctx, max_seqs), events),
        last_action(RunView::initial(n_texts as int, dim, n_ctx, max_seqs), events)
            == ActionView::Finish(out),
        0 <= text < n_texts,
        tokens_of(events, n_ctx)[text].len() > 0,
    ensures
        exists|k: int|
            #[trigger] answer_embeds(
                RunView::initial(n_texts as int, dim, n_ctx, max_seqs),
                events,
                k,
                dim,
                tokens_of(events, n_ctx)[text],
                out[text],
            ),
{
    let start = RunView::initial(n_texts as int, dim, n_ctx, max_seqs);
    let tokens = tokens_of(events, n_ctx);
    let k = lemma_answer_for_text(n_texts, dim, n_ctx, max_seqs, events, out, text);
    let sofar = events.take(k);
    let now = run_after(start, sofar);
    lemma_run_after(start, sofar);
    law_vector_belongs_to_its_text(now, text);
    lemma_read_was_asked(start, sofar);
    let b = now.stage->Read_bucket;
    let s = now.stage->seq;
    let j = lemma_last_batch_built(start, sofar);
    let batch = now.batch(b);
    assert(last_batch_built(start, sofar, batch, j));
    assert(batch.sequences[s].tokens == tokens[text]);
    assert(answer_embeds(start, events, k, dim, tokens[text], out[text]));
}

/// A model, as far as a call can tell: the tokens of a text, and the pooled
/// vector of a token sequence, with the norm of its first entries.
pub struct Model {
    pub tokenize: spec_fn(Seq<char>) -> Seq<i32>,
    pub pool: spec_fn(Seq<i32>) -> (Seq<u32>, u32),
}

/// The tokens of the sequence whose pooled vector the run waits for.
pub open spec fn tokens_asked(run: RunView) -> Seq<i32> {
    run.batch(run.stage->Read_bucket).sequences[run.stage->seq].tokens
}

/// Answer `k` is what `model` has to say to what was asked for last: where that
/// is a text, by its index, the tokens of the text at that index; where it is
/// the pooled vector of a sequence, by its id, that of the tokens which the
/// last batch put together has under that id.
pub open spec fn says(
    model: Model,
    texts: Seq<Seq<char>>,
    start: RunView,
    events: Seq<EmbedEvent>,
    k: int,
) -> bool {
    let sofar = events.take(k);
    match events[k] {
        EmbedEvent::Tokenized(tokens) => last_action(start, sofar) matches ActionView::Tokenize {
            index,
        } ==> tokens@ == (model.tokenize)(texts[index]),
        EmbedEvent::Pooled { raw, norm } => forall|batch: crate::run::BatchView, j: int, s: int|
            {
                &&& #[trigger] last_batch_built(start, sofar, batch, j)
                &&& 0 <= s < batch.sequences.len()
                &&& last_action(start, sofar) == (ActionView::ReadPooled {
                    seq_id: (#[trigger] batch.sequences[s]).seq_id,
                })
            } ==> (raw@, norm) == (model.pool)(batch.sequences[s].tokens),
        _ => true,
    }
}

/// `events` are a whole call on `texts` that succeeds with `out`, on a context
/// of `model`: each answers what the run asked for, as the model has it.
pub open spec fn call_on(
    model: Model,
    texts: Seq<Seq<char>>,
    dim: usize,
    n_ctx: usize,
    max_seqs: usize,
    events: Seq<EmbedEvent>,
    out: Seq<crate::vector::EmbeddingView>,
) -> bool {
    let start = RunView::initial(texts.len() as int, dim, n_ctx, max_seqs);
    &&& texts.len() <= usize::MAX
    &&& events.len() > 0
    &&& answers(start, events)
    &&& last_action(start, events) == ActionView::Finish(out)
    &&& forall|k: int| 0 <= k < events.len() ==> #[trigger] says(model, texts, start, events, k)
}

/// The vector of `text` under `model`.
pub open spec fn vector_of(
    model: Model,
    dim: usize,
    n_ctx: usize,
    text: Seq<char>,
) -> crate::vector::EmbeddingView {
    let tokens = crate::run::clipped((model.tokenize)(text), n_ctx);
    if tokens.len() == 0 {
        crate::vector::zero_embedding(dim as nat)
    } else {
        let (raw, norm) = (model.pool)(tokens);
        crate::vector::normalized(raw, dim as nat, norm)
    }
}

/// A run that waits for the tokens of a text has asked for them, by the number
/// of texts whose tokens it has.
pub(crate) proof fn lemma_text_was_asked(run: RunView, events: Seq<EmbedEvent>)
    requires
        run.stage is New,
        run.valid(),
        answers(run, events),
        run_after(run, events).stage is Tokenize,
    ensures
        events.len() > 0,
        last_action(run, events) == (ActionView::Tokenize {
            index: run_after(run, events).tokens.len() as int,
        }),
{
    lemma_run_after(run, events.drop_last());
    law_next_text_is_asked_for(run_after(run, events.drop_last()), events.last());
}

/// The texts are asked for one after the other: whenever a run waits for the
/// tokens of a text, it has just asked for the text whose index is the number
/// of texts that it has the tokens of, and it asks for no text otherwise.
pub proof fn law_next_text_is_asked_for(run: RunView, event: EmbedEvent)
    requires
        run.valid(),
        run.expects(event),
    ensures
        run.step(event).0.stage is Tokenize <==> run.step(event).1 is Tokenize,
        run.step(event).1 matches ActionView::Tokenize { index } ==> {
            &&& index == run.step(event).0.tokens.len()
            &&& index == run.tokens.len() + if event is Tokenized {
                1int
            } else {
                0
            }
            &&& index < run.n_texts
        },
{
}

/// The tokens that a model brought are those of the texts, in order.
pub(crate) proof fn lemma_tokens_said(
    model: Model,
    texts: Seq<Seq<char>>,
    start: RunView,
    events: Seq<EmbedEvent>,
    i: int,
)
    requires
        start.stage is New,
        start.valid(),
        answers(start, events),
        forall|k: int| 0 <= k < events.len() ==> #[trigger] says(model, texts, start, events, k),
        0 <= i < tokens_of(events, start.n_ctx).len(),
    ensures
        tokens_of(events, start.n_ctx)[i] == crate::run::clipped(
            (model.tokenize)(texts[i]),
            start.n_ctx,
        ),
    decreases events.len(),
{
    let earlier = events.drop_last();
    let n = earlier.len() as int;
    assert forall|k: int| 0 <= k < n implies #[trigger] says(model, texts, start, earlier, k) by {
        assert(says(model, texts, start, events, k));
        assert(earlier.take(k) =~= events.take(k));
        assert(earlier[k] == events[k]);
    }
    if i < tokens_of(earlier, start.n_ctx).len() {
        lemma_tokens_said(model, texts, start, earlier, i);
    } else {
        assert(events.take(n) =~= earlier);
        assert(says(model, texts, start, events, n));
        lemma_run_after(start, earlier);
        lemma_text_was_asked(start, earlier);
    }
}

/// What a model answers for a text is what it pools from the tokens of the text.
pub(crate) proof fn lemma_answer_is_said(
    model: Model,
    texts: Seq<Seq<char>>,
    start: RunView,
    events: Seq<EmbedEvent>,
    k: int,
    text: int,
)
    requires
        start.stage is New,
        start.valid(),
        0 < k < events.len(),
        says(model, texts, start, events, k),
        answers(start, events.take(k)),
        events[k] is Pooled,
        ({
            let now = run_after(start, events.take(k));
            &&& now.stage is Read
            &&& now.tokens == tokens_of(events, start.n_ctx)
            &&& now.pooled.len() == crate::run::pending_before(now.tokens, text)
        }),
        0 <= text < start.n_texts,
        tokens_of(events, start.n_ctx)[text].len() > 0,
    ensures
        events[k] matches EmbedEvent::Pooled { raw, norm } ==> (raw@, norm) == (model.pool)(
            tokens_of(events, start.n_ctx)[text],
        ),
{
    let sofar = events.take(k);
    let now = run_after(start, sofar);
    lemma_run_after(start, sofar);
    law_vector_belongs_to_its_text(now, text);
    lemma_read_was_asked(start, sofar);
    let j = lemma_last_batch_built(start, sofar);
    let batch = now.batch(now.stage->Read_bucket);
    assert(last_batch_built(start, sofar, batch, j));
    assert(batch.sequences[now.stage->seq].tokens == now.tokens[text]);
}

/// A call on a model whose tokens depend on the text alone, and whose pooled
/// vectors on the tokens alone, gives every text the vector that the text has
/// under the model: whatever else is in the call, wherever the text stands,
/// however the texts are split into batches, and whatever came before the call.
pub proof fn law_call_gives_vectors_of_texts(
    model: Model,
    texts: Seq<Seq<char>>,
    dim: usize,
    n_ctx: usize,
    max_seqs: usize,
    events: Seq<EmbedEvent>,
    out: Seq<crate::vector::EmbeddingView>,
)
    requires
        call_on(model, texts, dim, n_ctx, max_seqs, events, out),
    ensures
        out == texts.map_values(|text: Seq<char>| vector_of(model, dim, n_ctx, text)),
        forall|i: int| 0 <= i < texts.len() ==> (#[trigger] out[i]).values.len() == dim,
{
    let n_texts = texts.len() as usize;
    let start = RunView::initial(texts.len() as int, dim, n_ctx, max_seqs);
    let tokens = tokens_of(events, n_ctx);
    law_finished_run(n_texts, dim, n_ctx, max_seqs, events, out);
    assert forall|i: int| 0 <= i < texts.len() implies out[i] == vector_of(
        model,
        dim,
        n_ctx,
        #[trigger] texts[i],
    ) by {
        lemma_tokens_said(model, texts, start, events, i);
        if tokens[i].len() > 0 {
            let k = lemma_answer_for_text(n_texts, dim, n_ctx, max_seqs, events, out, i);
            lemma_answer_is_said(model, texts, start, events, k, i);
        }
    }
    assert(out =~= texts.map_values(|text: Seq<char>| vector_of(model, dim, n_ctx, text)));
}

/// Batching changes no vector and mixes up no positions: a text gets the same
/// vector from a call on many texts as from a call on that text alone, also
/// where the texts need several batches, and whatever the sequence limits of
/// the two calls.
pub proof fn law_batch_matches_individual(
    model: Model,
    texts: Seq<Seq<char>>,
    dim: usize,
    n_ctx: usize,
    max_seqs: usize,
    events: Seq<EmbedEvent>,
    out: Seq<crate::vector::EmbeddingView>,
    i: int,
    own_max_seqs: usize,
    own_events: Seq<EmbedEvent>,
    own_out: Seq<crate::vector::EmbeddingView>,
)
    requires
        0 <= i < texts.len(),
        call_on(model, texts, dim, n_ctx, max_seqs, events, out),
        call_on(model, seq![texts[i]], dim, n_ctx, own_max_seqs, own_events, own_out),
    ensures
        out.len() == texts.len(),
        own_out == seq![out[i]],
{
    law_call_gives_vectors_of_texts(model, texts, dim, n_ctx, max_seqs, events, out);
    law_call_gives_vectors_of_texts(
        model,
        seq![texts[i]],
        dim,
        n_ctx,
        own_max_seqs,
        own_events,
        own_out,
    );
    assert(own_out =~= seq![out[i]]);
}

/// No state of one call leaks into the next: two calls on the same texts end
/// with the same vectors, whatever else was embedded between them.
pub proof fn law_repeated_calls_are_consistent(
    model: Model,
    texts: Seq<Seq<char>>,
    dim: usize,
    n_ctx: usize,
    max_seqs: usize,
    events: Seq<EmbedEvent>,
    out: Seq<crate::vector::EmbeddingView>,
    later_events: Seq<EmbedEvent>,
    later_out: Seq<crate::vector::EmbeddingView>,
)
    requires
        call_on(model, texts, dim, n_ctx, max_seqs, events, out),
        call_on(model, texts, dim, n_ctx, max_seqs, later_events, later_out),
    ensures
        out == later_out,
{
    law_call_gives_vectors_of_texts(model, texts, dim, n_ctx, max_seqs, events, out);
    law_call_gives_vectors_of_texts(model, texts, dim, n_ctx, max_seqs, later_events, later_out);
}

} // verus!
