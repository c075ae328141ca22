//! What holds of whole embed calls, stated of nothing but the answers that the
//! caller gave and the actions that it was asked for.
use vstd::prelude::*;

use crate::error::{EmbeddingError, GgufEmbedError};
use crate::run::{ActionView, BatchView, EmbedAction, EmbedEvent, RunView};
use crate::run_laws::{answers, last_action, last_batch_built, run_after, tokens_of, vectors_of};

verus! {

/// The token lists that `events` brought, as they came.
pub open spec fn tokens_brought(events: Seq<EmbedEvent>) -> Seq<Seq<i32>> {
    events.filter(|e: EmbedEvent| e is Tokenized).map_values(|e: EmbedEvent| e->Tokenized_0@)
}

/// The pooled vectors that `events` brought, as they came, with their norms.
pub open spec fn vectors_brought(events: Seq<EmbedEvent>) -> Seq<(Seq<u32>, u32)> {
    events.filter(|e: EmbedEvent| e is Pooled).map_values(
        |e: EmbedEvent| (e->Pooled_raw@, e->Pooled_norm),
    )
}

/// How many of `tokens` fit a context window of `n_ctx`.
pub open spec fn fitting(tokens: Seq<i32>, n_ctx: usize) -> int {
    if tokens.len() < n_ctx {
        tokens.len() as int
    } else {
        n_ctx as int
    }
}

/// `used` is as much of the beginning of `tokens` as fits the window, token by token.
pub open spec fn is_start(used: Seq<i32>, tokens: Seq<i32>, n_ctx: usize) -> bool {
    &&& used.len() == fitting(tokens, n_ctx)
    &&& forall|j: int| 0 <= j < used.len() ==> #[trigger] used[j] == tokens[j]
}

/// How many of the first `i` texts have a token that fits the window.
pub open spec fn embedded_before(brought: Seq<Seq<i32>>, n_ctx: usize, i: int) -> int {
    brought.take(i).filter(|t: Seq<i32>| fitting(t, n_ctx) > 0).len() as int
}

proof fn lemma_tokens_brought(events: Seq<EmbedEvent>, n_ctx: usize)
    ensures
        tokens_brought(events).len() == tokens_of(events, n_ctx).len(),
        forall|i: int|
            0 <= i < tokens_brought(events).len() ==> is_start(
                #[trigger] tokens_of(events, n_ctx)[i],
                tokens_brought(events)[i],
                n_ctx,
            ),
    decreases events.len(),
{
    reveal(Seq::filter);
    if events.len() > 0 {
        let earlier = events.drop_last();
        lemma_tokens_brought(earlier, n_ctx);
        match events.last() {
            EmbedEvent::Tokenized(t) => {
                assert(tokens_brought(events) =~= tokens_brought(earlier).push(t@));
                assert forall|i: int| 0 <= i < tokens_brought(events).len() implies is_start(
                    #[trigger] tokens_of(events, n_ctx)[i],
                    tokens_brought(events)[i],
                    n_ctx,
                ) by {
                    if i < tokens_brought(earlier).len() {
                        assert(is_start(
                            tokens_of(earlier, n_ctx)[i],
                            tokens_brought(earlier)[i],
                            n_ctx,
                        ));
                    }
                }
            },
            _ => {
                assert(tokens_brought(events) == tokens_brought(earlier));
            },
        }
    }
}

/// Unless a call has failed, every vector that came was sound.
proof fn lemma_vectors_brought(start: RunView, events: Seq<EmbedEvent>)
    requires
        start.stage is New,
        start.valid(),
        answers(start, events),
        events.len() == 0 || !(last_action(start, events) is Fail),
    ensures
        vectors_brought(events).len() == vectors_of(events, start.dim).len(),
        forall|p: int|
            0 <= p < vectors_brought(events).len() ==> {
                let (raw, norm) = #[trigger] vectors_brought(events)[p];
                &&& crate::vector::raw_vector_error(raw, start.dim, norm) is None
                &&& vectors_of(events, start.dim)[p] == crate::vector::normalized(
                    raw,
                    start.dim as nat,
                    norm,
                )
                &&& raw.len() <= usize::MAX
            },
    decreases events.len(),
{
    reveal(Seq::filter);
    if events.len() > 0 {
        let earlier = events.drop_last();
        let before = run_after(start, earlier);
        crate::run_laws::lemma_run_after(start, earlier);
        if earlier.len() > 0 {
            assert(answers(start, earlier));
            crate::run_laws::lemma_run_after(start, earlier.drop_last());
            crate::run_laws::law_end_is_final(
                run_after(start, earlier.drop_last()),
                earlier.last(),
                events.last(),
            );
        }
        lemma_vectors_brought(start, earlier);
        match events.last() {
            EmbedEvent::Pooled { raw, norm } => {
                assert(vectors_brought(events) =~= vectors_brought(earlier).push((raw@, norm)));
                assert(crate::vector::raw_vector_error(raw@, start.dim, norm) is None);
                assert(raw@.len() <= usize::MAX) by {
                    lemma_vec_len(raw);
                }
                assert forall|p: int| 0 <= p < vectors_brought(events).len() implies {
                    let (raw, norm) = #[trigger] vectors_brought(events)[p];
                    &&& crate::vector::raw_vector_error(raw, start.dim, norm) is None
                    &&& vectors_of(events, start.dim)[p] == crate::vector::normalized(
                        raw,
                        start.dim as nat,
                        norm,
                    )
                    &&& raw.len() <= usize::MAX
                } by {
                    if p < vectors_brought(earlier).len() {
                        assert(vectors_brought(earlier)[p] == vectors_brought(events)[p]);
                    }
                }
            },
            _ => {
                assert(vectors_brought(events) == vectors_brought(earlier));
            },
        }
    }
}

proof fn lemma_vec_len<T>(v: Vec<T>)
    ensures
        v@.len() <= usize::MAX,
{
    assert(v.len() == v@.len());
}

proof fn lemma_embedded_before(
    tokens: Seq<Seq<i32>>,
    brought: Seq<Seq<i32>>,
    n_ctx: usize,
    i: int,
)
    requires
        tokens.len() == brought.len(),
        forall|k: int|
            0 <= k < tokens.len() ==> is_start(#[trigger] tokens[k], brought[k], n_ctx),
        0 <= i <= tokens.len(),
    ensures
        crate::run::pending_before(tokens, i) == embedded_before(brought, n_ctx, i),
    decreases i,
{
    reveal(Seq::filter);
    if i > 0 {
        lemma_embedded_before(tokens, brought, n_ctx, i - 1);
        assert(brought.take(i).drop_last() =~= brought.take(i - 1));
        assert(is_start(tokens[i - 1], brought[i - 1], n_ctx));
    }
}

/// What holds of the answers so far holds of any that came before.
proof fn lemma_answers_prefix(run: RunView, events: Seq<EmbedEvent>, k: int)
    requires
        answers(run, events),
        0 <= k <= events.len(),
    ensures
        answers(run, events.take(k)),
        k < events.len() ==> run_after(run, events.take(k)).expects(events[k]),
    decreases events.len(),
{
    if k < events.len() {
        let earlier = events.drop_last();
        if k < earlier.len() {
            lemma_answers_prefix(run, earlier, k);
            assert(earlier.take(k) =~= events.take(k));
        } else {
            assert(events.take(k) =~= earlier);
        }
    } else {
        assert(events.take(k) =~= events);
    }
}

/// The texts are asked for in order, each once and by its own index: the index
/// that is asked for is always the number of token lists that have come, and a
/// text is asked for as long as there is one left.
pub proof fn law_texts_are_tokenized_in_order(
    n_texts: usize,
    dim: usize,
    n_ctx: usize,
    max_seqs: usize,
    events: Seq<EmbedEvent>,
)
    requires
        events.len() > 0,
        answers(RunView::initial(n_texts as int, dim, n_ctx, max_seqs), events),
    ensures
        ({
            let action = last_action(
                RunView::initial(n_texts as int, dim, n_ctx, max_seqs),
                events,
            );
            let n = tokens_brought(events).len();
            &&& n <= n_texts
            &&& action is Tokenize ==> n < n_texts && action == (ActionView::Tokenize {
                index: n as int,
            })
            &&& (events.last() is Locked || events.last() is Tokenized) && n < n_texts
                ==> action is Tokenize
        }),
{
    let start = RunView::initial(n_texts as int, dim, n_ctx, max_seqs);
    crate::run_laws::lemma_run_after(start, events);
    crate::run_laws::lemma_run_after(start, events.drop_last());
    lemma_tokens_brought(events, n_ctx);
    crate::run_laws::law_next_text_is_asked_for(
        run_after(start, events.drop_last()),
        events.last(),
    );
}

/// Tokens are taken only in answer to a question for a text, and for the text
/// that was asked for: the `i`-th token list came right after the text with
/// index `i` was asked for.
pub proof fn law_tokens_answer_for_their_text(
    n_texts: usize,
    dim: usize,
    n_ctx: usize,
    max_seqs: usize,
    events: Seq<EmbedEvent>,
    k: int,
)
    requires
        answers(RunView::initial(n_texts as int, dim, n_ctx, max_seqs), events),
        0 <= k < events.len(),
        events[k] is Tokenized,
    ensures
        k > 0,
        last_action(RunView::initial(n_texts as int, dim, n_ctx, max_seqs), events.take(k)) == (
        ActionView::Tokenize { index: tokens_brought(events.take(k)).len() as int }),
{
    let start = RunView::initial(n_texts as int, dim, n_ctx, max_seqs);
    let sofar = events.take(k);
    lemma_answers_prefix(start, events, k);
    crate::run_laws::lemma_run_after(start, sofar);
    crate::run_laws::lemma_text_was_asked(start, sofar);
    lemma_tokens_brought(sofar, n_ctx);
}

/// Finds the text that gave the `p`-th token sequence.
proof fn lemma_pending_source(tokens: Seq<Seq<i32>>, p: int, n: int) -> (i: int)
    requires
        0 <= n <= tokens.len(),
        0 <= p < crate::run::pending_before(tokens, n),
    ensures
        0 <= i < n,
        tokens[i].len() > 0,
        crate::run::pending_before(tokens, i) == p,
    decreases n,
{
    if p < crate::run::pending_before(tokens, n - 1) {
        lemma_pending_source(tokens, p, n - 1)
    } else {
        n - 1
    }
}

/// Sequence `s` of `batch` is text `i`: as many texts that are embedded stand
/// before it as vectors had come when the batch was made, and `s` more.
pub open spec fn is_text(
    batch: BatchView,
    s: int,
    brought: Seq<Seq<i32>>,
    n_ctx: usize,
    done: int,
    i: int,
) -> bool {
    &&& 0 <= i < brought.len()
    &&& fitting(brought[i], n_ctx) > 0
    &&& embedded_before(brought, n_ctx, i) == done + s
    &&& is_start(batch.sequences[s].tokens, brought[i], n_ctx)
}

/// Sequence `s` of `batch` is one of the texts.
pub open spec fn is_some_text(
    batch: BatchView,
    s: int,
    brought: Seq<Seq<i32>>,
    n_ctx: usize,
    done: int,
) -> bool {
    exists|i: int| is_text(batch, s, brought, n_ctx, done, i)
}

proof fn lemma_batch_at(start: RunView, events: Seq<EmbedEvent>) -> (b: int)
    requires
        start.stage is New,
        start.valid(),
        events.len() > 0,
        answers(start, events),
        last_action(start, events) is BuildBatch,
    ensures
        ({
            let now = run_after(start, events);
            let buckets = now.buckets();
            let done = vectors_brought(events).len() as int;
            let batch = last_action(start, events)->BuildBatch_0;
            &&& now.valid()
            &&& now.stage == (crate::run::Stage::Build { bucket: b })
            &&& batch == now.batch(b)
            &&& 0 <= b < buckets.len()
            &&& now.tokens == tokens_of(events, start.n_ctx)
            &&& now.tokens.len() == start.n_texts
            &&& now.n_ctx == start.n_ctx
            &&& now.max_seqs == start.max_seqs
            &&& crate::bucket::items_before(buckets, b) == done
            &&& buckets[b].len() == batch.sequences.len()
            &&& crate::bucket::items_before(buckets, b + 1) == done + batch.sequences.len()
                <= crate::run::pending(now.tokens).len()
            &&& forall|s: int|
                0 <= s < batch.sequences.len() ==> (#[trigger] batch.sequences[s]).tokens
                    == crate::run::pending(now.tokens)[done + s]
        }),
{
    let now = run_after(start, events);
    let before = run_after(start, events.drop_last());
    crate::run_laws::lemma_run_after(start, events.drop_last());
    crate::run_laws::lemma_run_after(start, events);
    crate::run_laws::lemma_build_action(before, events.last());
    lemma_vectors_brought(start, events);
    let b = now.stage->Build_bucket;
    let counts = crate::run::pending_counts(now.tokens);
    crate::run::lemma_pending_counts(now.tokens, now.n_ctx);
    crate::bucket::law_packing_preserves_order(counts, now.n_ctx, now.max_seqs);
    crate::bucket::lemma_partition_bucket(now.buckets(), counts.len() as int, b);
    let batch = last_action(start, events)->BuildBatch_0;
    let done = vectors_brought(events).len() as int;
    assert forall|s: int| 0 <= s < batch.sequences.len() implies (
    #[trigger] batch.sequences[s]).tokens == crate::run::pending(now.tokens)[done + s] by {
        assert(now.buckets()[b][s] == done + s);
    }
    b
}

/// Every text enters a batch with its own tokens, in order and unchanged, as
/// far as they fit the context window; a text that fits as a whole enters it
/// with exactly the tokens that the tokenizer gave. The texts that have tokens
/// are put into batches one after the other, in order: a batch begins with the
/// first one that no vector has come for.
pub proof fn law_batches_hold_the_tokens_of_texts(
    n_texts: usize,
    dim: usize,
    n_ctx: usize,
    max_seqs: usize,
    events: Seq<EmbedEvent>,
    batch: BatchView,
)
    requires
        events.len() > 0,
        answers(RunView::initial(n_texts as int, dim, n_ctx, max_seqs), events),
        last_action(RunView::initial(n_texts as int, dim, n_ctx, max_seqs), events)
            == ActionView::BuildBatch(batch),
    ensures
        ({
            let brought = tokens_brought(events);
            let done = vectors_brought(events).len() as int;
            &&& brought.len() == n_texts
            &&& forall|s: int|
                0 <= s < batch.sequences.len() ==> #[trigger] is_some_text(
                    batch,
                    s,
                    brought,
                    n_ctx,
                    done,
                )
            &&& forall|i: int|
                #![trigger brought[i]]
                0 <= i < n_texts && fitting(brought[i], n_ctx) > 0 && done <= embedded_before(
                    brought,
                    n_ctx,
                    i,
                ) < done + batch.sequences.len() ==> {
                    let tokens = batch.sequences[embedded_before(brought, n_ctx, i) - done].tokens;
                    &&& is_start(tokens, brought[i], n_ctx)
                    &&& brought[i].len() <= n_ctx ==> tokens == brought[i]
                }
        }),
{
    let start = RunView::initial(n_texts as int, dim, n_ctx, max_seqs);
    let brought = tokens_brought(events);
    let done = vectors_brought(events).len() as int;
    let tokens = tokens_of(events, n_ctx);
    let b = lemma_batch_at(start, events);
    lemma_tokens_brought(events, n_ctx);
    crate::run::lemma_pending(tokens);
    assert forall|s: int| 0 <= s < batch.sequences.len() implies #[trigger] is_some_text(
        batch,
        s,
        brought,
        n_ctx,
        done,
    ) by {
        let i = lemma_pending_source(tokens, done + s, n_texts as int);
        lemma_embedded_before(tokens, brought, n_ctx, i);
        assert(is_start(tokens[i], brought[i], n_ctx));
        assert(batch.sequences[s].tokens == tokens[i]);
        assert(is_text(batch, s, brought, n_ctx, done, i));
    }
    assert forall|i: int|
        #![trigger brought[i]]
        0 <= i < n_texts && fitting(brought[i], n_ctx) > 0 && done <= embedded_before(
            brought,
            n_ctx,
            i,
        ) < done + batch.sequences.len() implies {
        let own = batch.sequences[embedded_before(brought, n_ctx, i) - done].tokens;
        &&& is_start(own, brought[i], n_ctx)
        &&& brought[i].len() <= n_ctx ==> own == brought[i]
    } by {
        lemma_embedded_before(tokens, brought, n_ctx, i);
        assert(is_start(tokens[i], brought[i], n_ctx));
        let own = batch.sequences[embedded_before(brought, n_ctx, i) - done].tokens;
        assert(own == tokens[i]);
        if brought[i].len() <= n_ctx {
            assert(own =~= brought[i]);
        }
    }
}

/// The tokens of all of `sequences` together.
pub open spec fn token_total(sequences: Seq<crate::run::BatchSequenceView>) -> int {
    sequences.fold_left(
        0int,
        |total: int, sequence: crate::run::BatchSequenceView| total + sequence.tokens.len(),
    )
}

proof fn lemma_token_total(sequences: Seq<crate::run::BatchSequenceView>)
    ensures
        token_total(sequences) == crate::run_laws::tokens_in(sequences),
    decreases sequences.len(),
{
    reveal_with_fuel(Seq::fold_left, 2);
    if sequences.len() > 0 {
        lemma_token_total(sequences.drop_last());
    }
}

/// A batch is as full as its bounds allow: it holds no more tokens than the
/// context window and no more sequences than the limit, it says truly how much
/// it holds, and it ends before a text only where that text would have broken
/// one of the bounds. Under a sequence limit of zero it holds at most one.
pub proof fn law_batches_are_filled_up(
    n_texts: usize,
    dim: usize,
    n_ctx: usize,
    max_seqs: usize,
    events: Seq<EmbedEvent>,
    batch: BatchView,
    next: int,
)
    requires
        events.len() > 0,
        answers(RunView::initial(n_texts as int, dim, n_ctx, max_seqs), events),
        last_action(RunView::initial(n_texts as int, dim, n_ctx, max_seqs), events)
            == ActionView::BuildBatch(batch),
    ensures
        batch.total_tokens == token_total(batch.sequences) <= n_ctx,
        max_seqs > 0 ==> 0 < batch.sequences.len() <= max_seqs,
        max_seqs == 0 ==> batch.sequences.len() <= 1,
        batch.sequences.len() <= i32::MAX ==> {
            &&& batch.n_seqs == batch.sequences.len()
            &&& forall|s: int|
                0 <= s < batch.sequences.len() ==> (#[trigger] batch.sequences[s]).seq_id == s
        },
        forall|s: int|
            0 <= s < batch.sequences.len() ==> (#[trigger] batch.sequences[s]).logits_all,
        ({
            let brought = tokens_brought(events);
            let done = vectors_brought(events).len() as int;
            max_seqs > 0 && 0 <= next < n_texts && fitting(brought[next], n_ctx) > 0
                && embedded_before(brought, n_ctx, next) == done + batch.sequences.len() ==> {
                ||| batch.sequences.len() == max_seqs
                ||| batch.total_tokens + fitting(brought[next], n_ctx) > n_ctx
            }
        }),
{
    let start = RunView::initial(n_texts as int, dim, n_ctx, max_seqs);
    let brought = tokens_brought(events);
    let done = vectors_brought(events).len() as int;
    let tokens = tokens_of(events, n_ctx);
    let b = lemma_batch_at(start, events);
    let now = run_after(start, events);
    let buckets = now.buckets();
    let counts = crate::run::pending_counts(tokens);
    crate::run_laws::lemma_run_after(start, events.drop_last());
    crate::run_laws::law_batch_fits_the_context(
        run_after(start, events.drop_last()),
        events.last(),
    );
    lemma_token_total(batch.sequences);
    crate::run::lemma_pending_counts(tokens, n_ctx);
    if max_seqs == 0 {
        if counts.len() > 0 {
            crate::bucket::law_zero_sequence_limit(counts, n_ctx);
        }
        assert(buckets[b].len() <= 1);
    }
    if max_seqs > 0 && 0 <= next < n_texts && fitting(brought[next], n_ctx) > 0
        && embedded_before(brought, n_ctx, next) == done + batch.sequences.len() {
        let c = b + 1;
        lemma_tokens_brought(events, n_ctx);
        lemma_embedded_before(tokens, brought, n_ctx, next);
        assert(is_start(tokens[next], brought[next], n_ctx));
        crate::run::lemma_pending(tokens);
        assert(tokens[next].len() > 0);
        crate::bucket::law_packing_is_greedy(counts, n_ctx, max_seqs);
        assert(c < buckets.len());
        assert(crate::bucket::within_bounds(counts, n_ctx, max_seqs, buckets[c]));
        assert(crate::bucket::full_before(counts, n_ctx, max_seqs, buckets[b], buckets[c]));
        assert(buckets[c][0] == crate::bucket::items_before(buckets, c));
        assert(counts[buckets[c][0] as int] == fitting(brought[next], n_ctx));
    }
}

/// Of a run that is at a bucket: the last batch that it asked for is that of
/// the bucket, and as many vectors have come since as the run has read of it.
proof fn lemma_reads_since_batch(
    start: RunView,
    events: Seq<EmbedEvent>,
    batch: BatchView,
    j: int,
)
    requires
        start.stage is New,
        start.valid(),
        answers(start, events),
        crate::run_laws::bucket_of(run_after(start, events)) is Some,
        last_batch_built(start, events, batch, j),
    ensures
        ({
            let now = run_after(start, events);
            &&& batch == now.batch(crate::run_laws::bucket_of(now)->0)
            &&& vectors_brought(events.skip(j)).len() == if now.stage is Read {
                now.stage->seq
            } else {
                0
            }
        }),
    decreases events.len(),
{
    let n = events.len() as int;
    let now = run_after(start, events);
    let earlier = events.drop_last();
    let before = run_after(start, earlier);
    let last = events.last();
    reveal(Seq::filter);
    crate::run_laws::lemma_run_after(start, earlier);
    assert(events.take(n) =~= events);
    if before.step(last).1 is BuildBatch {
        assert(last_action(start, events.take(n)) is BuildBatch);
        assert(j == n);
        crate::run_laws::lemma_build_action(before, last);
        assert(events.skip(j) =~= Seq::empty());
    } else {
        assert(j < n);
        assert(crate::run_laws::bucket_of(before) == crate::run_laws::bucket_of(now));
        let b = crate::run_laws::bucket_of(now)->0;
        assert(before.batch(b) == now.batch(b));
        assert(earlier.take(j) =~= events.take(j));
        assert forall|m: int| j < m <= n - 1 implies !(#[trigger] last_action(
            start,
            earlier.take(m),
        ) is BuildBatch) by {
            assert(events.take(m) =~= earlier.take(m));
        }
        lemma_reads_since_batch(start, earlier, batch, j);
        assert(events.skip(j).drop_last() =~= earlier.skip(j));
        assert(events.skip(j).last() == last);
    }
}

/// The vectors of a batch are read in the order of its sequences, each once
/// and by the id of its sequence: what is asked for is always the first
/// sequence that no vector has come for since the batch was put together, and
/// the run goes on to the next batch, or finishes, only behind the last.
pub proof fn law_vectors_are_read_in_order(
    n_texts: usize,
    dim: usize,
    n_ctx: usize,
    max_seqs: usize,
    events: Seq<EmbedEvent>,
    batch: BatchView,
    j: int,
)
    requires
        events.len() > 0,
        answers(RunView::initial(n_texts as int, dim, n_ctx, max_seqs), events),
        last_batch_built(
            RunView::initial(n_texts as int, dim, n_ctx, max_seqs),
            events.drop_last(),
            batch,
            j,
        ),
        events.last() is Encoded || events.last() is Pooled,
        !(last_action(RunView::initial(n_texts as int, dim, n_ctx, max_seqs), events) is Fail),
    ensures
        ({
            let start = RunView::initial(n_texts as int, dim, n_ctx, max_seqs);
            let action = last_action(start, events);
            let r = vectors_brought(events.skip(j)).len() as int;
            &&& r <= batch.sequences.len()
            &&& r < batch.sequences.len() ==> {
                &&& action == (ActionView::ReadPooled { seq_id: batch.sequences[r].seq_id })
                &&& crate::run_laws::tokens_asked(run_after(start, events))
                    == batch.sequences[r].tokens
            }
            &&& r == batch.sequences.len() ==> action is BuildBatch || action is Finish
        }),
{
    let start = RunView::initial(n_texts as int, dim, n_ctx, max_seqs);
    let earlier = events.drop_last();
    let before = run_after(start, earlier);
    let now = run_after(start, events);
    crate::run_laws::lemma_run_after(start, earlier);
    lemma_reads_since_batch(start, earlier, batch, j);
    reveal(Seq::filter);
    assert(events.skip(j).drop_last() =~= earlier.skip(j));
    assert(events.skip(j).last() == events.last());
    let b = crate::run_laws::bucket_of(before)->0;
    assert(batch.sequences.len() == before.buckets()[b].len());
    if now.stage is Read {
        assert(before.batch(b) == now.batch(b));
    }
}

/// `e` is the beginning of the pooled vector `raw`, entry by entry, to be
/// divided by `norm`; and the vector was sound.
pub open spec fn is_normalized(
    e: crate::vector::EmbeddingView,
    dim: usize,
    raw: Seq<u32>,
    norm: u32,
) -> bool {
    &&& raw.len() >= dim
    &&& crate::vector::all_finite(raw)
    &&& !crate::bits::less(norm, 0x3586_37bd)
    &&& e.divisor == Some(norm)
    &&& e.values.len() == dim
    &&& forall|d: int| 0 <= d < dim ==> #[trigger] e.values[d] == raw[d]
}

/// `e` is zero in each of its `dim` entries.
pub open spec fn is_zero(e: crate::vector::EmbeddingView, dim: usize) -> bool {
    &&& e.divisor is None
    &&& e.values.len() == dim
    &&& forall|d: int| 0 <= d < dim ==> #[trigger] e.values[d] == 0
}

/// `e` is what text `i` gets, where `brought` are the token lists of the texts
/// and `vectors` the vectors that came: zeros if no token of it fits, and else
/// the vector that as many came before as texts that are embedded stand before it.
pub open spec fn is_vector_of_text(
    e: crate::vector::EmbeddingView,
    dim: usize,
    n_ctx: usize,
    brought: Seq<Seq<i32>>,
    vectors: Seq<(Seq<u32>, u32)>,
    i: int,
) -> bool {
    if fitting(brought[i], n_ctx) == 0 {
        is_zero(e, dim)
    } else {
        let p = embedded_before(brought, n_ctx, i);
        &&& 0 <= p < vectors.len()
        &&& is_normalized(e, dim, vectors[p].0, vectors[p].1)
    }
}

/// What a sound vector becomes.
proof fn lemma_sound_vector(raw: Seq<u32>, dim: usize, norm: u32)
    requires
        raw.len() <= usize::MAX,
        crate::vector::raw_vector_error(raw, dim, norm) is None,
    ensures
        is_normalized(crate::vector::normalized(raw, dim as nat, norm), dim, raw, norm),
{
    crate::vector::law_validation_refuses_only_faults(raw, dim, norm);
    crate::vector::law_normalization_keeps_entries(raw, dim, norm);
}

/// A call that succeeds has asked for the tokens of every text, and for the
/// vector of every text that has tokens. It returns one vector per text, in
/// the order of the texts: zeros for a text of which no token fits, and for the
/// others the vectors that came, in the order in which they came, each the
/// beginning of what came.
pub proof fn law_finished_call(
    n_texts: usize,
    dim: usize,
    n_ctx: usize,
    max_seqs: usize,
    events: Seq<EmbedEvent>,
    out: Seq<crate::vector::EmbeddingView>,
)
    requires
        events.len() > 0,
        answers(RunView::initial(n_texts as int, dim, n_ctx, max_seqs), events),
        last_action(RunView::initial(n_texts as int, dim, n_ctx, max_seqs), events)
            == ActionView::Finish(out),
    ensures
        ({
            let brought = tokens_brought(events);
            let vectors = vectors_brought(events);
            &&& out.len() == n_texts
            &&& brought.len() == n_texts
            &&& vectors.len() == embedded_before(brought, n_ctx, n_texts as int)
            &&& forall|i: int|
                0 <= i < n_texts ==> is_vector_of_text(
                    #[trigger] out[i],
                    dim,
                    n_ctx,
                    brought,
                    vectors,
                    i,
                )
        }),
{
    let start = RunView::initial(n_texts as int, dim, n_ctx, max_seqs);
    let brought = tokens_brought(events);
    let vectors = vectors_brought(events);
    let tokens = tokens_of(events, n_ctx);
    crate::run_laws::law_finished_run(n_texts, dim, n_ctx, max_seqs, events, out);
    lemma_tokens_brought(events, n_ctx);
    lemma_vectors_brought(start, events);
    crate::run::lemma_pending(tokens);
    lemma_embedded_before(tokens, brought, n_ctx, n_texts as int);
    assert forall|i: int| 0 <= i < n_texts implies is_vector_of_text(
        #[trigger] out[i],
        dim,
        n_ctx,
        brought,
        vectors,
        i,
    ) by {
        let p = embedded_before(brought, n_ctx, i);
        lemma_embedded_before(tokens, brought, n_ctx, i);
        assert(is_start(tokens[i], brought[i], n_ctx));
        if tokens[i].len() > 0 {
            let (raw, norm) = vectors[p];
            lemma_sound_vector(raw, dim, norm);
        } else {
            crate::vector::law_zero_vector_is_zero(dim as nat);
        }
    }
}

/// Of a call on a model, every text gets the beginning of the vector that the
/// model pools from as many of the first tokens of that very text as fit, and
/// zeros where no token fits.
pub proof fn law_call_embeds_each_text(
    model: crate::run_laws::Model,
    texts: Seq<Seq<char>>,
    dim: usize,
    n_ctx: usize,
    max_seqs: usize,
    events: Seq<EmbedEvent>,
    out: Seq<crate::vector::EmbeddingView>,
    i: int,
    used: Seq<i32>,
)
    requires
        crate::run_laws::call_on(model, texts, dim, n_ctx, max_seqs, events, out),
        0 <= i < texts.len(),
        is_start(used, (model.tokenize)(texts[i]), n_ctx),
    ensures
        out.len() == texts.len(),
        used.len() == 0 ==> is_zero(out[i], dim),
        used.len() > 0 ==> is_normalized(
            out[i],
            dim,
            (model.pool)(used).0,
            (model.pool)(used).1,
        ),
{
    let n_texts = texts.len() as usize;
    let start = RunView::initial(texts.len() as int, dim, n_ctx, max_seqs);
    let tokens = tokens_of(events, n_ctx);
    crate::run_laws::law_finished_run(n_texts, dim, n_ctx, max_seqs, events, out);
    crate::run_laws::lemma_tokens_said(model, texts, start, events, i);
    assert(used =~= tokens[i]);
    if used.len() > 0 {
        let k = crate::run_laws::lemma_answer_for_text(
            n_texts,
            dim,
            n_ctx,
            max_seqs,
            events,
            out,
            i,
        );
        crate::run_laws::lemma_answer_is_said(model, texts, start, events, k, i);
        match events[k] {
            EmbedEvent::Pooled { raw, norm } => {
                lemma_vec_len(raw);
                lemma_sound_vector(raw@, dim, norm);
            },
            _ => {},
        }
    } else {
        crate::vector::law_zero_vector_is_zero(dim as nat);
    }
}

/// A run on no answers yet has nothing but what it was made with, and waits
/// for the word to start.
pub proof fn law_new_run(
    n_texts: usize,
    dim: usize,
    n_ctx: usize,
    max_seqs: usize,
    event: EmbedEvent,
)
    ensures
        ({
            let start = RunView::initial(n_texts as int, dim, n_ctx, max_seqs);
            &&& start.valid()
            &&& start.n_texts == n_texts
            &&& start.dim == dim
            &&& start.n_ctx == n_ctx
            &&& start.max_seqs == max_seqs
            &&& start.expects(event) <==> event is Start
        }),
{
}

/// What was set at the start of a call stays as it is to the end.
pub proof fn law_call_keeps_its_settings(
    n_texts: usize,
    dim: usize,
    n_ctx: usize,
    max_seqs: usize,
    events: Seq<EmbedEvent>,
)
    requires
        answers(RunView::initial(n_texts as int, dim, n_ctx, max_seqs), events),
    ensures
        ({
            let now = run_after(RunView::initial(n_texts as int, dim, n_ctx, max_seqs), events);
            &&& now.n_texts == n_texts
            &&& now.dim == dim
            &&& now.n_ctx == n_ctx
            &&& now.max_seqs == max_seqs
        }),
{
    crate::run_laws::lemma_run_after(
        RunView::initial(n_texts as int, dim, n_ctx, max_seqs),
        events,
    );
}

/// Whatever is asked for can be answered, with what was asked for or with its
/// failure, and with nothing else; the end cannot be answered.
pub proof fn law_every_action_has_its_answers(run: RunView, event: EmbedEvent, answer: EmbedEvent)
    requires
        run.valid(),
        run.expects(event),
    ensures
        run.step(event).0.expects(answer) <==> match run.step(event).1 {
            ActionView::LockContext => answer is Locked || answer is LockPoisoned,
            ActionView::Tokenize { .. } => answer is Tokenized || answer is TokenizeFailed,
            ActionView::BuildBatch(_) => answer is BatchBuilt || answer is BatchFailed,
            ActionView::ClearKvCache => answer is KvCacheCleared,
            ActionView::Encode => answer is Encoded || answer is EncodeFailed,
            ActionView::ReadPooled { .. } => answer is Pooled || answer is ReadFailed,
            ActionView::Finish(_) => false,
            ActionView::Fail(_) => false,
        },
{
}

/// The order in which a call does things: the lock, then the texts, and then
/// for one batch after the other, putting it together, clearing the cache,
/// encoding and reading. Each action comes only where it is due.
pub proof fn law_actions_come_in_order(run: RunView, event: EmbedEvent)
    requires
        run.valid(),
        run.expects(event),
    ensures
        event is Start <==> run.step(event).1 is LockContext,
        event is BatchBuilt <==> run.step(event).1 is ClearKvCache,
        event is KvCacheCleared <==> run.step(event).1 is Encode,
        run.step(event).1 is Tokenize ==> event is Locked || event is Tokenized,
        run.step(event).1 is ReadPooled ==> event is Encoded || event is Pooled,
        run.step(event).1 is BuildBatch || run.step(event).1 is Finish ==> {
            ||| event is Locked
            ||| event is Tokenized
            ||| event is Encoded
            ||| event is Pooled
        },
{
}

/// A call that fails says why: every failure that is reported comes out as the
/// error of its own kind, with the same reason, and a vector that is not sound
/// as what is wrong with it. Nothing else makes a call fail.
pub proof fn law_errors_name_their_cause(run: RunView, event: EmbedEvent)
    requires
        run.valid(),
        run.expects(event),
    ensures
        match event {
            EmbedEvent::LockPoisoned => run.step(event).1 == ActionView::Fail(
                GgufEmbedError::LockPoisoned,
            ),
            EmbedEvent::TokenizeFailed(reason) => run.step(event).1 == ActionView::Fail(
                GgufEmbedError::Tokenize(reason),
            ),
            EmbedEvent::BatchFailed(reason) => run.step(event).1 == ActionView::Fail(
                GgufEmbedError::BatchConstruction(reason),
            ),
            EmbedEvent::EncodeFailed(reason) => run.step(event).1 == ActionView::Fail(
                GgufEmbedError::Encode(reason),
            ),
            EmbedEvent::ReadFailed(reason) => run.step(event).1 == ActionView::Fail(
                GgufEmbedError::ReadEmbedding(reason),
            ),
            EmbedEvent::Pooled { raw, norm } => if raw@.len() < run.dim {
                run.step(event).1 == ActionView::Fail(
                    GgufEmbedError::Validation(
                        EmbeddingError::DimensionMismatch {
                            got: raw@.len() as usize,
                            expected: run.dim,
                        },
                    ),
                )
            } else if !crate::vector::all_finite(raw@) {
                run.step(event).1 == ActionView::Fail(
                    GgufEmbedError::Validation(EmbeddingError::NonFiniteVector),
                )
            } else if crate::bits::less(norm, 0x3586_37bd) {
                run.step(event).1 == ActionView::Fail(
                    GgufEmbedError::Validation(EmbeddingError::DegenerateVector),
                )
            } else {
                !(run.step(event).1 is Fail)
            },
            _ => !(run.step(event).1 is Fail),
        },
{
    match event {
        EmbedEvent::Pooled { raw, norm } => {
            lemma_vec_len(raw);
            crate::vector::law_validation_refuses_only_faults(raw@, run.dim, norm);
        },
        _ => {},
    }
}

/// The contents of an action are what the action itself holds, field by field.
pub proof fn law_action_contents(action: EmbedAction)
    ensures
        match action {
            EmbedAction::LockContext => action@ is LockContext,
            EmbedAction::Tokenize { index } => action@ == (ActionView::Tokenize {
                index: index as int,
            }),
            EmbedAction::BuildBatch(batch) => action@ is BuildBatch && {
                let contents = action@->BuildBatch_0;
                &&& contents.total_tokens == batch.total_tokens
                &&& contents.n_seqs == batch.n_seqs
                &&& contents.sequences.len() == batch.sequences@.len()
                &&& forall|s: int|
                    #![trigger contents.sequences[s]]
                    #![trigger batch.sequences@[s]]
                    0 <= s < batch.sequences@.len() ==> {
                        &&& contents.sequences[s].seq_id == batch.sequences@[s].seq_id
                        &&& contents.sequences[s].tokens == batch.sequences@[s].tokens@
                        &&& contents.sequences[s].logits_all == batch.sequences@[s].logits_all
                    }
            },
            EmbedAction::ClearKvCache => action@ is ClearKvCache,
            EmbedAction::Encode => action@ is Encode,
            EmbedAction::ReadPooled { seq_id } => action@ == (ActionView::ReadPooled { seq_id }),
            EmbedAction::Finish(vectors) => action@ is Finish && {
                let contents = action@->Finish_0;
                &&& contents.len() == vectors@.len()
                &&& forall|i: int|
                    #![trigger contents[i]]
                    #![trigger vectors@[i]]
                    0 <= i < vectors@.len() ==> {
                        &&& contents[i].values == vectors@[i].values@
                        &&& contents[i].divisor == vectors@[i].divisor
                    }
            },
            EmbedAction::Fail(e) => action@ == ActionView::Fail(e),
        },
{
}

/// What a run takes from an answer: from tokens, as many of the first ones as
/// fit, unchanged and behind those of the earlier texts; from a sound vector,
/// its beginning, behind the earlier vectors; from any other answer, nothing.
/// Its settings never change.
pub proof fn law_answers_are_taken_as_they_are(run: RunView, event: EmbedEvent)
    requires
        run.valid(),
        run.expects(event),
    ensures
        ({
            let next = run.step(event).0;
            &&& next.n_texts == run.n_texts
            &&& next.dim == run.dim
            &&& next.n_ctx == run.n_ctx
            &&& next.max_seqs == run.max_seqs
            &&& event matches EmbedEvent::Tokenized(tokens) ==> {
                &&& next.tokens.len() == run.tokens.len() + 1
                &&& next.tokens.drop_last() == run.tokens
                &&& is_start(next.tokens.last(), tokens@, run.n_ctx)
            }
            &&& !(event is Tokenized) ==> next.tokens == run.tokens
            &&& event matches EmbedEvent::Pooled { raw, norm } ==> {
                if raw@.len() >= run.dim && crate::vector::all_finite(raw@) && !crate::bits::less(
                    norm,
                    0x3586_37bd,
                ) {
                    &&& next.pooled.len() == run.pooled.len() + 1
                    &&& next.pooled.drop_last() == run.pooled
                    &&& is_normalized(next.pooled.last(), run.dim, raw@, norm)
                } else {
                    next.pooled == run.pooled
                }
            }
            &&& !(event is Pooled) ==> next.pooled == run.pooled
        }),
{
    let next = run.step(event).0;
    match event {
        EmbedEvent::Tokenized(tokens) => {
            assert(next.tokens.drop_last() =~= run.tokens);
        },
        EmbedEvent::Pooled { raw, norm } => {
            lemma_vec_len(raw);
            crate::vector::law_validation_refuses_only_faults(raw@, run.dim, norm);
            if crate::vector::raw_vector_error(raw@, run.dim, norm) is None {
                lemma_sound_vector(raw@, run.dim, norm);
                assert(next.pooled.drop_last() =~= run.pooled);
            }
        },
        _ => {},
    }
}

} // verus!
