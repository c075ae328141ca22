//! One embed call, as a machine.
//!
//! An [`EmbedRun`] decides what happens in an embed call; the caller carries
//! it out. The run names an action, the caller performs it on the model or
//! its context and answers with an event, and so on until the run finishes or
//! fails.
//!
//! Every text is tokenized and truncated first, so that batches are made from
//! real token counts. Texts without tokens get the zero vector and never enter
//! a batch. The others are packed into batches, in order; for each batch the
//! KV cache is cleared, the batch encoded, and one pooled vector read for each
//! of its sequences.
use vstd::prelude::*;

use crate::bucket::bucket_by_token_budget;
use crate::error::GgufEmbedError;
use crate::vector::{truncate_and_normalize, validate_raw_vector, zero_vector, Embedding};

verus! {

/// A token sequence of a batch.
#[derive(Debug)]
pub struct BatchSequence {
    /// The id of the sequence within its batch.
    pub seq_id: i32,
    /// The tokens of the sequence.
    pub tokens: Vec<i32>,
    /// Whether every token is an output, which mean pooling requires.
    pub logits_all: bool,
}

/// The contents of a [`BatchSequence`].
#[verifier::ext_equal]
pub struct BatchSequenceView {
    pub seq_id: i32,
    pub tokens: Seq<i32>,
    pub logits_all: bool,
}

impl View for BatchSequence {
    type V = BatchSequenceView;

    open spec fn view(&self) -> BatchSequenceView {
        BatchSequenceView {
            seq_id: self.seq_id,
            tokens: self.tokens@,
            logits_all: self.logits_all,
        }
    }
}

/// A batch of token sequences, to be encoded in one call.
#[derive(Debug)]
pub struct Batch {
    /// How many tokens the batch holds.
    pub total_tokens: usize,
    /// How many sequences the batch holds.
    pub n_seqs: i32,
    /// The sequences, in the order in which they are added.
    pub sequences: Vec<BatchSequence>,
}

/// The contents of a [`Batch`].
#[verifier::ext_equal]
pub struct BatchView {
    pub total_tokens: int,
    pub n_seqs: i32,
    pub sequences: Seq<BatchSequenceView>,
}

impl View for Batch {
    type V = BatchView;

    open spec fn view(&self) -> BatchView {
        BatchView {
            total_tokens: self.total_tokens as int,
            n_seqs: self.n_seqs,
            sequences: self.sequences@.map_values(|s: BatchSequence| s@),
        }
    }
}

/// What the caller reports back to a run.
#[derive(Debug)]
pub enum EmbedEvent {
    /// The run is to start.
    Start,
    /// The context is locked.
    Locked,
    /// The lock on the context is poisoned.
    LockPoisoned,
    /// The tokens of the text that was asked for.
    Tokenized(Vec<i32>),
    /// The text that was asked for could not be tokenized.
    TokenizeFailed(String),
    /// The batch is put together.
    BatchBuilt,
    /// The batch could not be put together.
    BatchFailed(String),
    /// The KV cache is cleared.
    KvCacheCleared,
    /// The batch is encoded.
    Encoded,
    /// The batch could not be encoded.
    EncodeFailed(String),
    /// The bit patterns of the pooled vector that was asked for, and that of
    /// the norm of its first entries, as many as the embedder has dimensions.
    Pooled { raw: Vec<u32>, norm: u32 },
    /// The pooled vector could not be read.
    ReadFailed(String),
}

/// What a run asks the caller to do.
#[derive(Debug)]
pub enum EmbedAction {
    /// Lock the context, for the rest of the run.
    LockContext,
    /// Tokenize the text at `index`, with a beginning-of-sequence token.
    Tokenize { index: usize },
    /// Put this batch together.
    BuildBatch(Batch),
    /// Clear the KV cache.
    ClearKvCache,
    /// Encode the batch.
    Encode,
    /// Read the pooled vector of a sequence of the batch.
    ReadPooled { seq_id: i32 },
    /// Return these vectors, one per text.
    Finish(Vec<Embedding>),
    /// Return this error.
    Fail(GgufEmbedError),
}

/// The contents of an [`EmbedAction`].
pub enum ActionView {
    LockContext,
    Tokenize { index: int },
    BuildBatch(BatchView),
    ClearKvCache,
    Encode,
    ReadPooled { seq_id: i32 },
    Finish(Seq<crate::vector::EmbeddingView>),
    Fail(GgufEmbedError),
}

/// The contents of `vectors`.
pub open spec fn embedding_views(vectors: Seq<Embedding>) -> Seq<crate::vector::EmbeddingView> {
    vectors.map_values(|e: Embedding| e@)
}

impl View for EmbedAction {
    type V = ActionView;

    open spec fn view(&self) -> ActionView {
        match *self {
            EmbedAction::LockContext => ActionView::LockContext,
            EmbedAction::Tokenize { index } => ActionView::Tokenize { index: index as int },
            EmbedAction::BuildBatch(batch) => ActionView::BuildBatch(batch@),
            EmbedAction::ClearKvCache => ActionView::ClearKvCache,
            EmbedAction::Encode => ActionView::Encode,
            EmbedAction::ReadPooled { seq_id } => ActionView::ReadPooled { seq_id },
            EmbedAction::Finish(vectors) => ActionView::Finish(embedding_views(vectors@)),
            EmbedAction::Fail(e) => ActionView::Fail(e),
        }
    }
}

/// What a run waits for. The buckets of a run are numbered in the order in
/// which they are encoded.
pub enum Stage {
    /// To be started.
    New,
    /// The lock.
    Lock,
    /// The tokens of the next text.
    Tokenize,
    /// The batch of a bucket to be put together.
    Build { bucket: int },
    /// The KV cache to be cleared before a bucket.
    Clear { bucket: int },
    /// The batch of a bucket to be encoded.
    Encode { bucket: int },
    /// The pooled vector of a sequence of a bucket.
    Read { bucket: int, seq: int },
    /// Nothing more.
    Ended,
}

/// The contents of an [`EmbedRun`].
#[verifier::ext_equal]
pub struct RunView {
    /// How many texts are to be embedded.
    pub n_texts: int,
    /// The dimension of the vectors.
    pub dim: usize,
    /// How many tokens of a text are used, and how many a batch may hold.
    pub n_ctx: usize,
    /// How many sequences a batch may hold.
    pub max_seqs: usize,
    /// The tokens, after truncation, of the texts that were tokenized.
    pub tokens: Seq<Seq<i32>>,
    /// The vectors that were read, in the order of the texts that have tokens.
    pub pooled: Seq<crate::vector::EmbeddingView>,
    /// What is waited for.
    pub stage: Stage,
}

/// The token sequences that enter a batch: those that are not empty.
pub open spec fn pending(tokens: Seq<Seq<i32>>) -> Seq<Seq<i32>> {
    tokens.filter(|t: Seq<i32>| t.len() > 0)
}

/// How many of the first `i` texts have tokens.
pub open spec fn pending_before(tokens: Seq<Seq<i32>>, i: int) -> int
    decreases i,
{
    if i <= 0 {
        0
    } else {
        pending_before(tokens, i - 1) + if tokens[i - 1].len() > 0 {
            1int
        } else {
            0
        }
    }
}

/// The token counts that batches are made from.
pub open spec fn pending_counts(tokens: Seq<Seq<i32>>) -> Seq<usize> {
    pending(tokens).map_values(|t: Seq<i32>| t.len() as usize)
}

/// The first `n_ctx` of `tokens`, or all of them if there are fewer.
pub open spec fn clipped(tokens: Seq<i32>, n_ctx: usize) -> Seq<i32> {
    if tokens.len() <= n_ctx {
        tokens
    } else {
        tokens.take(n_ctx as int)
    }
}

/// One vector per text: the zero vector for a text without tokens, and for
/// the others the vectors in `pooled`, in order.
pub open spec fn output(
    dim: usize,
    tokens: Seq<Seq<i32>>,
    pooled: Seq<crate::vector::EmbeddingView>,
) -> Seq<crate::vector::EmbeddingView> {
    Seq::new(
        tokens.len(),
        |i: int|
            if tokens[i].len() == 0 {
                crate::vector::zero_embedding(dim as nat)
            } else {
                pooled[pending_before(tokens, i)]
            },
    )
}

impl RunView {
    /// A run on `n_texts` texts that has not started.
    pub open spec fn initial(n_texts: int, dim: usize, n_ctx: usize, max_seqs: usize) -> RunView {
        RunView {
            n_texts,
            dim,
            n_ctx,
            max_seqs,
            tokens: Seq::empty(),
            pooled: Seq::empty(),
            stage: Stage::New,
        }
    }

    /// The buckets that the texts are packed into.
    pub open spec fn buckets(self) -> Seq<Seq<usize>> {
        crate::bucket::packing(pending_counts(self.tokens), self.n_ctx, self.max_seqs)
    }

    /// The batch of bucket `b`.
    pub open spec fn batch(self, b: int) -> BatchView {
        let bucket = self.buckets()[b];
        BatchView {
            total_tokens: crate::bucket::bucket_tokens(pending_counts(self.tokens), bucket),
            n_seqs: bucket.len() as usize as i32,
            sequences: Seq::new(
                bucket.len(),
                |s: int|
                    BatchSequenceView {
                        seq_id: s as usize as i32,
                        tokens: pending(self.tokens)[bucket[s] as int],
                        logits_all: true,
                    },
            ),
        }
    }

    /// The run waits for `event`, or for what `event` says instead of it.
    pub open spec fn expects(self, event: EmbedEvent) -> bool {
        match event {
            EmbedEvent::Start => self.stage is New,
            EmbedEvent::Locked => self.stage is Lock,
            EmbedEvent::LockPoisoned => self.stage is Lock,
            EmbedEvent::Tokenized(_) => self.stage is Tokenize,
            EmbedEvent::TokenizeFailed(_) => self.stage is Tokenize,
            EmbedEvent::BatchBuilt => self.stage is Build,
            EmbedEvent::BatchFailed(_) => self.stage is Build,
            EmbedEvent::KvCacheCleared => self.stage is Clear,
            EmbedEvent::Encoded => self.stage is Encode,
            EmbedEvent::EncodeFailed(_) => self.stage is Encode,
            EmbedEvent::Pooled { .. } => self.stage is Read,
            EmbedEvent::ReadFailed(_) => self.stage is Read,
        }
    }

    /// The run, waiting for `stage`.
    pub open spec fn at(self, stage: Stage) -> RunView {
        RunView { stage, ..self }
    }

    /// On to the next text; after the last one, to the first bucket.
    pub open spec fn to_next_text(self) -> (RunView, ActionView) {
        if self.tokens.len() < self.n_texts {
            (self.at(Stage::Tokenize), ActionView::Tokenize { index: self.tokens.len() as int })
        } else {
            self.to_bucket(0)
        }
    }

    /// On to bucket `b`; after the last one, to the end.
    pub open spec fn to_bucket(self, b: int) -> (RunView, ActionView) {
        if b < self.buckets().len() {
            (self.at(Stage::Build { bucket: b }), ActionView::BuildBatch(self.batch(b)))
        } else {
            (
                self.at(Stage::Ended),
                ActionView::Finish(output(self.dim, self.tokens, self.pooled)),
            )
        }
    }

    /// On to the vector of sequence `s` of bucket `b`; after the last one, to the next bucket.
    pub open spec fn to_sequence(self, b: int, s: int) -> (RunView, ActionView) {
        if s < self.buckets()[b].len() {
            (
                self.at(Stage::Read { bucket: b, seq: s }),
                ActionView::ReadPooled { seq_id: s as usize as i32 },
            )
        } else {
            self.to_bucket(b + 1)
        }
    }

    /// To the end, with an error.
    pub open spec fn to_failure(self, e: GgufEmbedError) -> (RunView, ActionView) {
        (self.at(Stage::Ended), ActionView::Fail(e))
    }

    /// The run after `event`, and what it asks for then.
    pub open spec fn step(self, event: EmbedEvent) -> (RunView, ActionView)
        recommends
            self.expects(event),
    {
        match event {
            EmbedEvent::Start => (self.at(Stage::Lock), ActionView::LockContext),
            EmbedEvent::Locked => self.to_next_text(),
            EmbedEvent::LockPoisoned => self.to_failure(GgufEmbedError::LockPoisoned),
            EmbedEvent::Tokenized(tokens) => RunView {
                tokens: self.tokens.push(clipped(tokens@, self.n_ctx)),
                ..self
            }.to_next_text(),
            EmbedEvent::TokenizeFailed(reason) => self.to_failure(
                GgufEmbedError::Tokenize(reason),
            ),
            EmbedEvent::BatchBuilt => (
                self.at(Stage::Clear { bucket: self.stage->Build_bucket }),
                ActionView::ClearKvCache,
            ),
            EmbedEvent::BatchFailed(reason) => self.to_failure(
                GgufEmbedError::BatchConstruction(reason),
            ),
            EmbedEvent::KvCacheCleared => (
                self.at(Stage::Encode { bucket: self.stage->Clear_bucket }),
                ActionView::Encode,
            ),
            EmbedEvent::Encoded => self.to_sequence(self.stage->Encode_bucket, 0),
            EmbedEvent::EncodeFailed(reason) => self.to_failure(GgufEmbedError::Encode(reason)),
            EmbedEvent::Pooled { raw, norm } => match crate::vector::raw_vector_error(
                raw@,
                self.dim,
                norm,
            ) {
                Some(e) => self.to_failure(GgufEmbedError::Validation(e)),
                None => RunView {
                    pooled: self.pooled.push(
                        crate::vector::normalized(raw@, self.dim as nat, norm),
                    ),
                    ..self
                }.to_sequence(self.stage->Read_bucket, self.stage->seq + 1),
            },
            EmbedEvent::ReadFailed(reason) => self.to_failure(
                GgufEmbedError::ReadEmbedding(reason),
            ),
        }
    }

    /// What holds of a run at every stage: the texts are tokenized in order
    /// and to the end before the first bucket, no text has more tokens than
    /// the context holds, as many vectors were read as there are sequences
    /// before the one that is waited for, and each has the right dimension.
    pub open spec fn valid(self) -> bool {
        &&& 0 <= self.tokens.len() <= self.n_texts <= usize::MAX
        &&& forall|i: int|
            0 <= i < self.tokens.len() ==> (#[trigger] self.tokens[i]).len() <= self.n_ctx
        &&& forall|k: int|
            0 <= k < self.pooled.len() ==> (#[trigger] self.pooled[k]).values.len() == self.dim
        &&& match self.stage {
            Stage::New => self.tokens.len() == 0 && self.pooled.len() == 0,
            Stage::Lock => self.tokens.len() == 0 && self.pooled.len() == 0,
            Stage::Tokenize => self.tokens.len() < self.n_texts && self.pooled.len() == 0,
            Stage::Build { bucket } => self.valid_bucket(bucket, 0),
            Stage::Clear { bucket } => self.valid_bucket(bucket, 0),
            Stage::Encode { bucket } => self.valid_bucket(bucket, 0),
            Stage::Read { bucket, seq } => self.valid_bucket(bucket, seq) && 0 <= seq
                < self.buckets()[bucket].len(),
            Stage::Ended => true,
        }
    }

    /// All texts are tokenized, bucket `b` exists, and the vectors of the
    /// buckets before it and of its own first `s` sequences were read.
    pub open spec fn valid_bucket(self, b: int, s: int) -> bool {
        &&& self.tokens.len() == self.n_texts
        &&& 0 <= b < self.buckets().len()
        &&& self.pooled.len() == crate::bucket::items_before(self.buckets(), b) + s
    }
}

/// Tokenizing one more text leaves the counts before it alone.
proof fn lemma_pending_before_push(tokens: Seq<Seq<i32>>, t: Seq<i32>, i: int)
    requires
        0 <= i <= tokens.len(),
    ensures
        pending_before(tokens.push(t), i) == pending_before(tokens, i),
    decreases i,
{
    if i > 0 {
        lemma_pending_before_push(tokens, t, i - 1);
    }
}

proof fn lemma_pending_push(tokens: Seq<Seq<i32>>, t: Seq<i32>)
    ensures
        pending(tokens.push(t)) == if t.len() > 0 {
            pending(tokens).push(t)
        } else {
            pending(tokens)
        },
        pending_before(tokens.push(t), tokens.len() as int + 1) == pending_before(
            tokens,
            tokens.len() as int,
        ) + if t.len() > 0 {
            1int
        } else {
            0
        },
{
    reveal(Seq::filter);
    assert(tokens.push(t).drop_last() =~= tokens);
    lemma_pending_before_push(tokens, t, tokens.len() as int);
}

/// Where the sequences that enter a batch come from.
pub(crate) proof fn lemma_pending(tokens: Seq<Seq<i32>>)
    ensures
        pending(tokens).len() == pending_before(tokens, tokens.len() as int),
        forall|i: int|
            0 <= i < tokens.len() && (#[trigger] tokens[i]).len() > 0 ==> 0 <= pending_before(
                tokens,
                i,
            ) < pending(tokens).len() && pending(tokens)[pending_before(tokens, i)] == tokens[i],
    decreases tokens.len(),
{
    if tokens.len() > 0 {
        let rest = tokens.drop_last();
        assert(rest.push(tokens.last()) =~= tokens);
        lemma_pending(rest);
        lemma_pending_push(rest, tokens.last());
        assert forall|i: int| 0 <= i < tokens.len() && (#[trigger] tokens[i]).len() > 0 implies 0
            <= pending_before(tokens, i) < pending(tokens).len() && pending(
            tokens,
        )[pending_before(tokens, i)] == tokens[i] by {
            lemma_pending_before_push(rest, tokens.last(), i);
            if i < rest.len() {
                assert(rest[i] == tokens[i]);
            }
        }
    } else {
        reveal(Seq::filter);
    }
}

/// What bounds the texts bounds the counts that batches are made from.
pub(crate) proof fn lemma_pending_counts(tokens: Seq<Seq<i32>>, n_ctx: usize)
    requires
        forall|i: int| 0 <= i < tokens.len() ==> (#[trigger] tokens[i]).len() <= n_ctx,
    ensures
        pending(tokens).len() <= tokens.len(),
        forall|k: int|
            0 <= k < pending(tokens).len() ==> 0 < (#[trigger] pending(tokens)[k]).len() <= n_ctx,
        forall|k: int| 0 <= k < pending(tokens).len() ==> #[trigger] pending_counts(tokens)[k] <= n_ctx,
    decreases tokens.len(),
{
    if tokens.len() > 0 {
        let rest = tokens.drop_last();
        assert(rest.push(tokens.last()) =~= tokens);
        assert forall|i: int| 0 <= i < rest.len() implies (#[trigger] rest[i]).len() <= n_ctx by {
            assert(rest[i] == tokens[i]);
        }
        lemma_pending_counts(rest, n_ctx);
        lemma_pending_push(rest, tokens.last());
        assert(tokens[tokens.len() - 1].len() <= n_ctx);
    } else {
        reveal(Seq::filter);
    }
}

/// What the run waits for, with the position in the run.
#[derive(Debug, Clone, Copy)]
enum Phase {
    New,
    Lock,
    Tokenize { index: usize },
    Build { bucket: usize },
    Clear { bucket: usize },
    Encode { bucket: usize },
    Read { bucket: usize, seq: usize },
    Ended,
}

/// An embed call under way.
pub struct EmbedRun {
    n_texts: usize,
    dim: usize,
    n_ctx: usize,
    max_seqs: usize,
    pending_idx: Vec<usize>,
    pending_tokens: Vec<Vec<i32>>,
    buckets: Vec<Vec<usize>>,
    out: Vec<Embedding>,
    phase: Phase,
    tokens: Ghost<Seq<Seq<i32>>>,
    pooled: Ghost<Seq<crate::vector::EmbeddingView>>,
}

impl View for EmbedRun {
    type V = RunView;

    closed spec fn view(&self) -> RunView {
        RunView {
            n_texts: self.n_texts as int,
            dim: self.dim,
            n_ctx: self.n_ctx,
            max_seqs: self.max_seqs,
            tokens: self.tokens@,
            pooled: self.pooled@,
            stage: match self.phase {
                Phase::New => Stage::New,
                Phase::Lock => Stage::Lock,
                Phase::Tokenize { .. } => Stage::Tokenize,
                Phase::Build { bucket } => Stage::Build { bucket: bucket as int },
                Phase::Clear { bucket } => Stage::Clear { bucket: bucket as int },
                Phase::Encode { bucket } => Stage::Encode { bucket: bucket as int },
                Phase::Read { bucket, seq } => Stage::Read {
                    bucket: bucket as int,
                    seq: seq as int,
                },
                Phase::Ended => Stage::Ended,
            },
        }
    }
}

impl EmbedRun {
    /// The run's own records agree with its contents.
    pub closed spec fn wf(&self) -> bool {
        &&& self@.valid()
        &&& match self.phase {
            Phase::New => self.records(),
            Phase::Lock => self.records(),
            Phase::Tokenize { index } => self.records() && index == self.tokens@.len(),
            Phase::Build { .. } => self.records() && self.planned(),
            Phase::Clear { .. } => self.records() && self.planned(),
            Phase::Encode { .. } => self.records() && self.planned(),
            Phase::Read { .. } => self.records() && self.planned(),
            Phase::Ended => true,
        }
    }

    /// The texts that enter a batch are recorded in order, and every vector
    /// that is known stands where it belongs.
    spec fn records(&self) -> bool {
        let tokens = self.tokens@;
        &&& self.out@.len() == self.n_texts
        &&& self.pending_tokens@.map_values(|t: Vec<i32>| t@) == pending(tokens)
        &&& self.pending_idx@.len() == pending(tokens).len()
        &&& self.pooled@.len() <= pending(tokens).len()
        &&& tokens.len() <= self.n_texts
        &&& forall|k: int|
            0 <= k < self.pending_idx@.len() ==> {
                let i = #[trigger] self.pending_idx@[k] as int;
                &&& 0 <= i < tokens.len()
                &&& tokens[i].len() > 0
                &&& pending_before(tokens, i) == k
            }
        &&& forall|i: int|
            0 <= i < tokens.len() && (#[trigger] tokens[i]).len() > 0
                ==> self.pending_idx@[pending_before(tokens, i)] == i
        &&& forall|i: int|
            0 <= i < tokens.len() && (#[trigger] tokens[i]).len() == 0 ==> self.out@[i]@
                == crate::vector::zero_embedding(self.dim as nat)
        &&& forall|k: int|
            0 <= k < self.pooled@.len() ==> self.out@[#[trigger] self.pending_idx@[k] as int]@
                == self.pooled@[k]
    }

    /// The texts are packed into buckets.
    spec fn planned(&self) -> bool {
        crate::bucket::nested_view(self.buckets@) == self@.buckets()
    }

    /// A run on `n_texts` texts for vectors of dimension `dim`. A text is used
    /// up to `n_ctx` tokens; a batch holds at most so many, and at most
    /// `max_seqs` sequences.
    pub fn new(n_texts: usize, dim: usize, n_ctx: usize, max_seqs: usize) -> (r: Self)
        ensures
            r.wf(),
            r@.valid(),
            r@ == RunView::initial(n_texts as int, dim, n_ctx, max_seqs),
    {
        let mut out: Vec<Embedding> = Vec::new();
        let mut i: usize = 0;
        while i < n_texts
            invariant
                i <= n_texts,
                out@.len() == i,
            decreases n_texts - i,
        {
            out.push(Embedding { values: Vec::new(), divisor: None });
            i = i + 1;
        }
        let r = EmbedRun {
            n_texts,
            dim,
            n_ctx,
            max_seqs,
            pending_idx: Vec::new(),
            pending_tokens: Vec::new(),
            buckets: Vec::new(),
            out,
            phase: Phase::New,
            tokens: Ghost(Seq::empty()),
            pooled: Ghost(Seq::empty()),
        };
        proof {
            lemma_pending(r.tokens@);
            assert(r.pending_tokens@.map_values(|t: Vec<i32>| t@) =~= pending(r.tokens@));
        }
        r
    }

    /// Whether `event` is an answer to what the run last asked for.
    pub fn expects(&self, event: &EmbedEvent) -> (r: bool)
        ensures
            r == self@.expects(*event),
    {
        match (event, self.phase) {
            (EmbedEvent::Start, Phase::New) => true,
            (EmbedEvent::Locked, Phase::Lock) => true,
            (EmbedEvent::LockPoisoned, Phase::Lock) => true,
            (EmbedEvent::Tokenized(_), Phase::Tokenize { .. }) => true,
            (EmbedEvent::TokenizeFailed(_), Phase::Tokenize { .. }) => true,
            (EmbedEvent::BatchBuilt, Phase::Build { .. }) => true,
            (EmbedEvent::BatchFailed(_), Phase::Build { .. }) => true,
            (EmbedEvent::KvCacheCleared, Phase::Clear { .. }) => true,
            (EmbedEvent::Encoded, Phase::Encode { .. }) => true,
            (EmbedEvent::EncodeFailed(_), Phase::Encode { .. }) => true,
            (EmbedEvent::Pooled { .. }, Phase::Read { .. }) => true,
            (EmbedEvent::ReadFailed(_), Phase::Read { .. }) => true,
            _ => false,
        }
    }

    /// The batch of bucket `b`.
    fn batch(&self, b: usize) -> (r: Batch)
        requires
            self@.valid(),
            self.records(),
            self.planned(),
            self.tokens@.len() == self.n_texts,
            0 <= b < self.buckets@.len(),
        ensures
            r@ == self@.batch(b as int),
    {
        let ghost counts = pending_counts(self.tokens@);
        let ghost bucket = self@.buckets()[b as int];
        proof {
            lemma_pending_counts(self.tokens@, self.n_ctx);
            crate::bucket::law_packing_preserves_order(counts, self.n_ctx, self.max_seqs);
            crate::bucket::law_buckets_fit_the_budget(
                counts,
                self.n_ctx,
                self.max_seqs,
                b as int,
            );
            crate::bucket::lemma_partition_bucket(
                self@.buckets(),
                counts.len() as int,
                b as int,
            );
            assert(crate::bucket::nested_view(self.buckets@)[b as int] == self.buckets@[b as int]@);
            assert(bucket.take(0) =~= Seq::empty());
        }
        let members = &self.buckets[b];
        assert(members@ == bucket);
        let mut sequences: Vec<BatchSequence> = Vec::new();
        let mut total_tokens: usize = 0;
        let mut s: usize = 0;
        while s < members.len()
            invariant
                s <= bucket.len(),
                members@ == bucket,
                counts == pending_counts(self.tokens@),
                self.records(),
                self.planned(),
                0 <= b < self.buckets@.len(),
                bucket == self@.buckets()[b as int],
                forall|k: int|
                    0 <= k < pending(self.tokens@).len() ==> (#[trigger] pending(
                        self.tokens@,
                    )[k]).len() <= self.n_ctx,
                forall|j: int| 0 <= j < bucket.len() ==> #[trigger] bucket[j] < counts.len(),
                crate::bucket::bucket_tokens(counts, bucket) <= self.n_ctx,
                total_tokens == crate::bucket::bucket_tokens(counts, bucket.take(s as int)),
                sequences@.len() == s,
                forall|j: int|
                    0 <= j < s ==> (#[trigger] sequences@[j])@ == self@.batch(b as int).sequences[j],
            decreases bucket.len() - s,
        {
            let p: usize = members[s];
            assert(bucket[s as int] == p);
            assert(self.pending_tokens@.map_values(|t: Vec<i32>| t@)[p as int]
                == self.pending_tokens@[p as int]@);
            let tokens: Vec<i32> = self.pending_tokens[p].clone();
            assert(tokens@ =~= pending(self.tokens@)[p as int]);
            proof {
                crate::bucket::lemma_bucket_tokens_partial(counts, bucket, s as int);
                crate::bucket::lemma_bucket_tokens_partial(counts, bucket, s + 1);
                assert(counts[p as int] == tokens@.len());
            }
            total_tokens = total_tokens + tokens.len();
            sequences.push(
                BatchSequence {
                    seq_id: #[verifier::truncate]
                    (s as i32),
                    tokens,
                    logits_all: true,
                },
            );
            s = s + 1;
        }
        let r = Batch {
            total_tokens,
            n_seqs: #[verifier::truncate]
            (members.len() as i32),
            sequences,
        };
        proof {
            assert(bucket.take(s as int) =~= bucket);
            assert(r@.sequences =~= self@.batch(b as int).sequences);
        }
        r
    }

    /// On to bucket `b`; after the last one, to the end.
    fn to_bucket(&mut self, b: usize) -> (r: EmbedAction)
        requires
            old(self).records(),
            old(self).planned(),
            old(self)@.at(Stage::Ended).valid(),
            old(self).tokens@.len() == old(self).n_texts,
            b <= old(self).buckets@.len(),
            old(self).pooled@.len() == crate::bucket::items_before(
                old(self)@.buckets(),
                b as int,
            ),
        ensures
            final(self).wf(),
            (final(self)@, r@) == old(self)@.to_bucket(b as int),
    {
        if b < self.buckets.len() {
            self.phase = Phase::Build { bucket: b };
            let batch = self.batch(b);
            EmbedAction::BuildBatch(batch)
        } else {
            let ghost tokens = self.tokens@;
            let ghost counts = pending_counts(tokens);
            proof {
                lemma_pending(tokens);
                lemma_pending_counts(tokens, self.n_ctx);
                crate::bucket::law_packing_preserves_order(counts, self.n_ctx, self.max_seqs);
                assert(embedding_views(self.out@) =~= output(self.dim, tokens, self.pooled@));
            }
            self.phase = Phase::Ended;
            let mut out: Vec<Embedding> = Vec::new();
            std::mem::swap(&mut out, &mut self.out);
            EmbedAction::Finish(out)
        }
    }

    /// On to the vector of sequence `s` of bucket `b`; after the last one, to the next bucket.
    fn to_sequence(&mut self, b: usize, s: usize) -> (r: EmbedAction)
        requires
            old(self).records(),
            old(self).planned(),
            old(self)@.at(Stage::Ended).valid(),
            old(self)@.valid_bucket(b as int, s as int),
            s <= old(self)@.buckets()[b as int].len(),
        ensures
            final(self).wf(),
            (final(self)@, r@) == old(self)@.to_sequence(b as int, s as int),
    {
        assert(crate::bucket::nested_view(self.buckets@)[b as int] == self.buckets@[b as int]@);
        if s < self.buckets[b].len() {
            self.phase = Phase::Read { bucket: b, seq: s };
            EmbedAction::ReadPooled {
                seq_id: #[verifier::truncate]
                (s as i32),
            }
        } else {
            assert(b < self.buckets.len());
            self.to_bucket(b + 1)
        }
    }

    /// On to the next text; after the last one, to the first bucket.
    fn to_next_text(&mut self, index: usize) -> (r: EmbedAction)
        requires
            old(self).records(),
            old(self)@.at(Stage::Ended).valid(),
            old(self).pooled@.len() == 0,
            index == old(self).tokens@.len(),
        ensures
            final(self).wf(),
            (final(self)@, r@) == old(self)@.to_next_text(),
    {
        if index < self.n_texts {
            self.phase = Phase::Tokenize { index };
            return EmbedAction::Tokenize { index };
        }
        let mut token_counts: Vec<usize> = Vec::new();
        let mut k: usize = 0;
        while k < self.pending_tokens.len()
            invariant
                k <= self.pending_tokens@.len(),
                token_counts@.len() == k,
                forall|j: int|
                    0 <= j < k ==> #[trigger] token_counts@[j] == self.pending_tokens@[j]@.len(),
            decreases self.pending_tokens@.len() - k,
        {
            token_counts.push(self.pending_tokens[k].len());
            k = k + 1;
        }
        proof {
            assert forall|j: int| 0 <= j < k implies token_counts@[j] == #[trigger] pending_counts(
                self.tokens@,
            )[j] by {
                assert(self.pending_tokens@.map_values(|t: Vec<i32>| t@)[j]
                    == self.pending_tokens@[j]@);
            }
            assert(token_counts@ =~= pending_counts(self.tokens@));
        }
        self.buckets = bucket_by_token_budget(token_counts.as_slice(), self.n_ctx, self.max_seqs);
        self.to_bucket(0)
    }

    /// To the end, with an error.
    fn to_failure(&mut self, e: GgufEmbedError) -> (r: EmbedAction)
        requires
            old(self).wf(),
        ensures
            final(self).wf(),
            (final(self)@, r@) == old(self)@.to_failure(e),
    {
        self.phase = Phase::Ended;
        EmbedAction::Fail(e)
    }

    /// Takes the tokens of the text at `index`.
    fn take_tokens(&mut self, index: usize, tokens: Vec<i32>)
        requires
            old(self).wf(),
            old(self)@.stage is Tokenize,
            index == old(self).tokens@.len(),
        ensures
            final(self).records(),
            final(self)@.at(Stage::Ended).valid(),
            final(self)@ == (RunView {
                tokens: old(self)@.tokens.push(clipped(tokens@, old(self)@.n_ctx)),
                ..old(self)@
            }),
    {
        let mut tokens = tokens;
        let ghost before = self.tokens@;
        let ghost t = clipped(tokens@, self.n_ctx);
        if tokens.len() > self.n_ctx {
            tokens.truncate(self.n_ctx);
        }
        assert(tokens@ =~= t);
        let ghost after = before.push(t);
        proof {
            lemma_pending(before);
            lemma_pending(after);
            lemma_pending_push(before, t);
            assert forall|i: int| 0 <= i <= before.len() implies #[trigger] pending_before(after, i)
                == pending_before(before, i) by {
                lemma_pending_before_push(before, t, i);
            }
            assert forall|i: int| 0 <= i < before.len() implies after[i] == #[trigger] before[i] by {}
        }
        if tokens.len() == 0 {
            self.out.set(index, zero_vector(self.dim));
        } else {
            self.pending_idx.push(index);
            self.pending_tokens.push(tokens);
        }
        self.tokens = Ghost(after);
        assert(self.pending_tokens@.map_values(|t: Vec<i32>| t@) =~= pending(after));
    }

    /// Takes the vector of sequence `s` of bucket `b`.
    fn take_vector(&mut self, b: usize, s: usize, vector: Embedding)
        requires
            old(self).wf(),
            old(self)@.stage == (Stage::Read { bucket: b as int, seq: s as int }),
            vector@.values.len() == old(self)@.dim,
        ensures
            final(self).records(),
            final(self).planned(),
            final(self)@.at(Stage::Ended).valid(),
            final(self)@ == (RunView { pooled: old(self)@.pooled.push(vector@), ..old(self)@ }),
            s < usize::MAX,
    {
        let ghost counts = pending_counts(self.tokens@);
        proof {
            lemma_pending_counts(self.tokens@, self.n_ctx);
            crate::bucket::law_packing_preserves_order(counts, self.n_ctx, self.max_seqs);
            crate::bucket::lemma_partition_bucket(self@.buckets(), counts.len() as int, b as int);
            assert(crate::bucket::nested_view(self.buckets@)[b as int] == self.buckets@[b as int]@);
            assert(self@.buckets()[b as int][s as int] == self.pooled@.len());
        }
        assert(s < self.buckets[b as int].len());
        let p: usize = self.buckets[b][s];
        let i: usize = self.pending_idx[p];
        let ghost pooled = self.pooled@.push(vector@);
        self.out.set(i, vector);
        self.pooled = Ghost(pooled);
    }

    /// Takes an answer to what the run last asked for, and says what to do next.
    pub fn step(&mut self, event: EmbedEvent) -> (r: EmbedAction)
        requires
            old(self).wf(),
            old(self)@.expects(event),
        ensures
            final(self).wf(),
            final(self)@.valid(),
            (final(self)@, r@) == old(self)@.step(event),
    {
        match (event, self.phase) {
            (EmbedEvent::Start, _) => {
                self.phase = Phase::Lock;
                EmbedAction::LockContext
            },
            (EmbedEvent::Locked, _) => self.to_next_text(0),
            (EmbedEvent::LockPoisoned, _) => self.to_failure(GgufEmbedError::LockPoisoned),
            (EmbedEvent::Tokenized(tokens), Phase::Tokenize { index }) => {
                self.take_tokens(index, tokens);
                self.to_next_text(index + 1)
            },
            (EmbedEvent::TokenizeFailed(reason), _) => self.to_failure(
                GgufEmbedError::Tokenize(reason),
            ),
            (EmbedEvent::BatchBuilt, Phase::Build { bucket }) => {
                self.phase = Phase::Clear { bucket };
                EmbedAction::ClearKvCache
            },
            (EmbedEvent::BatchFailed(reason), _) => self.to_failure(
                GgufEmbedError::BatchConstruction(reason),
            ),
            (EmbedEvent::KvCacheCleared, Phase::Clear { bucket }) => {
                self.phase = Phase::Encode { bucket };
                EmbedAction::Encode
            },
            (EmbedEvent::Encoded, Phase::Encode { bucket }) => self.to_sequence(bucket, 0),
            (EmbedEvent::EncodeFailed(reason), _) => self.to_failure(
                GgufEmbedError::Encode(reason),
            ),
            (EmbedEvent::Pooled { raw, norm }, Phase::Read { bucket, seq }) => {
                match validate_raw_vector(raw.as_slice(), self.dim, norm) {
                    Err(e) => self.to_failure(GgufEmbedError::from(e)),
                    Ok(()) => {
                        let vector = truncate_and_normalize(raw, self.dim, norm);
                        self.take_vector(bucket, seq, vector);
                        self.to_sequence(bucket, seq + 1)
                    },
                }
            },
            (EmbedEvent::ReadFailed(reason), _) => self.to_failure(
                GgufEmbedError::ReadEmbedding(reason),
            ),
            // No other event is an answer to what the run asked for.
            _ => vstd::pervasive::unreached(),
        }
    }
}

/// Whatever is known of valid runs holds of every run that is well-formed.
pub proof fn law_well_formed_run_is_valid(run: EmbedRun)
    requires
        run.wf(),
    ensures
        run@.valid(),
{
}

} // verus!
