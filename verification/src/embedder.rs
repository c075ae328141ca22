//! The embedder: how it is loaded, and how calls on it begin and end.
//!
//! An embedder holds one model and one context, and serializes access to the
//! context. Both live outside this library; a [`GgufEmbedder`] holds what the
//! decisions are made from.
use vstd::prelude::*;

use crate::config::GgufEmbedderConfig;
use crate::context::{ContextParams, PoolingType, FALLBACK_THREADS};
use crate::error::GgufEmbedError;
use crate::heartbeat::Heartbeat;
use crate::interval::Interval;
use crate::run::EmbedRun;
use crate::vector::Embedding;

verus! {

/// What an embedder was configured to do.
#[derive(Debug)]
pub struct GgufEmbedder {
    dimension: usize,
    n_ctx: usize,
    max_seqs: usize,
    heartbeat_interval: Interval,
}

/// The contents of a [`GgufEmbedder`].
pub struct EmbedderView {
    /// The dimension of the vectors.
    pub dimension: usize,
    /// The context window, in tokens.
    pub n_ctx: usize,
    /// How many sequences a batch may hold.
    pub max_seqs: usize,
    /// The heartbeat interval, in nanoseconds.
    pub heartbeat_interval: int,
}

impl View for GgufEmbedder {
    type V = EmbedderView;

    closed spec fn view(&self) -> EmbedderView {
        EmbedderView {
            dimension: self.dimension,
            n_ctx: self.n_ctx,
            max_seqs: self.max_seqs,
            heartbeat_interval: self.heartbeat_interval.total_nanos(),
        }
    }
}

/// The embedder that `config` describes.
pub open spec fn configured(config: GgufEmbedderConfig) -> EmbedderView {
    EmbedderView {
        dimension: config.dimension,
        n_ctx: config.n_ctx as usize,
        max_seqs: config.max_seqs as usize,
        heartbeat_interval: config.heartbeat_interval.total_nanos(),
    }
}

/// What has just happened while an embedder is loaded.
#[derive(Debug)]
pub enum LoadEvent {
    /// Loading is to start.
    Start,
    /// The model is there.
    ModelReady,
    /// There is no model.
    ModelFailed(GgufEmbedError),
    /// The backend is there.
    BackendReady,
    /// There is no backend.
    BackendFailed(GgufEmbedError),
    /// The context was created.
    ContextReady,
    /// The context could not be created.
    ContextFailed(String),
}

/// What to do next to load an embedder.
#[derive(Debug)]
pub enum LoadAction {
    /// Get the model, with this many layers on the GPU if a number is given.
    AcquireModel { gpu_layers: Option<u32> },
    /// Get the backend.
    AcquireBackend,
    /// Create a context with these parameters.
    CreateContext(ContextParams),
    /// Return this embedder.
    Finish(GgufEmbedder),
    /// Return this error.
    Fail(GgufEmbedError),
}

/// The contents of a [`LoadAction`].
pub enum LoadActionView {
    AcquireModel { gpu_layers: Option<u32> },
    AcquireBackend,
    CreateContext(ContextParams),
    Finish(EmbedderView),
    Fail(GgufEmbedError),
}

impl View for LoadAction {
    type V = LoadActionView;

    open spec fn view(&self) -> LoadActionView {
        match *self {
            LoadAction::AcquireModel { gpu_layers } => LoadActionView::AcquireModel { gpu_layers },
            LoadAction::AcquireBackend => LoadActionView::AcquireBackend,
            LoadAction::CreateContext(params) => LoadActionView::CreateContext(params),
            LoadAction::Finish(embedder) => LoadActionView::Finish(embedder@),
            LoadAction::Fail(e) => LoadActionView::Fail(e),
        }
    }
}

/// The action that follows `event`.
pub open spec fn load_action(
    config: GgufEmbedderConfig,
    parallelism: Option<usize>,
    event: LoadEvent,
) -> LoadActionView {
    match event {
        LoadEvent::Start => LoadActionView::AcquireModel { gpu_layers: config.gpu_layers },
        LoadEvent::ModelReady => LoadActionView::AcquireBackend,
        LoadEvent::ModelFailed(e) => LoadActionView::Fail(e),
        LoadEvent::BackendReady => LoadActionView::CreateContext(
            crate::context::context_params(config.n_ctx, config.max_seqs, parallelism),
        ),
        LoadEvent::BackendFailed(e) => LoadActionView::Fail(e),
        LoadEvent::ContextReady => LoadActionView::Finish(configured(config)),
        LoadEvent::ContextFailed(reason) => LoadActionView::Fail(
            GgufEmbedError::ContextCreation(reason),
        ),
    }
}

/// What loading comes to, where `model`, `backend` and `context` say what goes
/// wrong with each of them, if anything.
pub open spec fn load_result(
    config: GgufEmbedderConfig,
    parallelism: Option<usize>,
    model: Option<GgufEmbedError>,
    backend: Option<GgufEmbedError>,
    context: Option<String>,
) -> LoadActionView {
    let with_model = match model {
        None => LoadEvent::ModelReady,
        Some(e) => LoadEvent::ModelFailed(e),
    };
    let with_backend = match backend {
        None => LoadEvent::BackendReady,
        Some(e) => LoadEvent::BackendFailed(e),
    };
    let with_context = match context {
        None => LoadEvent::ContextReady,
        Some(reason) => LoadEvent::ContextFailed(reason),
    };
    match load_action(config, parallelism, LoadEvent::Start) {
        LoadActionView::AcquireModel { .. } => match load_action(config, parallelism, with_model) {
            LoadActionView::AcquireBackend => match load_action(
                config,
                parallelism,
                with_backend,
            ) {
                LoadActionView::CreateContext(_) => load_action(config, parallelism, with_context),
                other => other,
            },
            other => other,
        },
        other => other,
    }
}

/// How a batch call begins.
pub enum BatchStart {
    /// It is done already: there was nothing to embed.
    Done(Vec<Embedding>),
    /// It runs.
    Run(EmbedCall),
}

/// A call on an embedder: the run, and the heartbeat beside it.
pub struct EmbedCall {
    /// The run.
    pub run: EmbedRun,
    /// The heartbeat.
    pub heartbeat: Heartbeat,
}

impl EmbedCall {
    /// This is a call on `n_texts` texts to `embedder` that has not started.
    pub open spec fn is_fresh(self, embedder: EmbedderView, n_texts: usize) -> bool {
        &&& self.run.wf()
        &&& self.run@ == crate::run::RunView::initial(
            n_texts as int,
            embedder.dimension,
            embedder.n_ctx,
            embedder.max_seqs,
        )
        &&& self.heartbeat@ == (crate::heartbeat::HeartbeatView {
            n_texts,
            interval: embedder.heartbeat_interval,
            elapsed: 0,
        })
    }
}

/// What an embedder's load task came to: its own result where it ran to its
/// end, an error with the reason where it panicked.
pub fn load_task_result<T>(joined: Result<Result<T, GgufEmbedError>, String>) -> (r: Result<
    T,
    GgufEmbedError,
>)
    ensures
        match joined {
            Ok(result) => r == result,
            Err(reason) => r == Err::<T, GgufEmbedError>(GgufEmbedError::LoadTaskPanicked(reason)),
        },
{
    match joined {
        Ok(result) => result,
        Err(reason) => Err(GgufEmbedError::LoadTaskPanicked(reason)),
    }
}

impl GgufEmbedder {
    /// The embedder that `config` describes.
    pub fn new(config: &GgufEmbedderConfig) -> (r: Self)
        ensures
            r@ == configured(*config),
            r@.dimension == config.dimension,
            r@.n_ctx == config.n_ctx,
            config.max_seqs >= 0 ==> r@.max_seqs == config.max_seqs,
            r@.heartbeat_interval == config.heartbeat_interval.total_nanos(),
    {
        GgufEmbedder {
            dimension: config.dimension,
            n_ctx: config.n_ctx as usize,
            max_seqs: #[verifier::truncate]
            (config.max_seqs as usize),
            heartbeat_interval: config.heartbeat_interval,
        }
    }

    /// Decides the next step in loading the embedder that `config` describes:
    /// the model first, then the backend, then a context on both. The first
    /// failure ends it. `parallelism` is that of the machine, if it is known.
    pub fn load_blocking(
        config: &GgufEmbedderConfig,
        parallelism: Option<usize>,
        event: LoadEvent,
    ) -> (r: LoadAction)
        ensures
            r@ == load_action(*config, parallelism, event),
    {
        match event {
            LoadEvent::Start => LoadAction::AcquireModel { gpu_layers: config.gpu_layers },
            LoadEvent::ModelReady => LoadAction::AcquireBackend,
            LoadEvent::ModelFailed(e) => LoadAction::Fail(e),
            LoadEvent::BackendReady => LoadAction::CreateContext(
                GgufEmbedder::ctx_params(config.n_ctx, config.max_seqs, parallelism),
            ),
            LoadEvent::BackendFailed(e) => LoadAction::Fail(e),
            LoadEvent::ContextReady => LoadAction::Finish(GgufEmbedder::new(config)),
            LoadEvent::ContextFailed(reason) => LoadAction::Fail(
                GgufEmbedError::ContextCreation(reason),
            ),
        }
    }

    /// The parameters of the context. The batch sizes equal the context
    /// window, so that a whole sequence pools in a single ubatch; a unified KV
    /// buffer lets all sequences share the full window instead of splitting it
    /// evenly.
    pub fn ctx_params(n_ctx: u32, max_seqs: i32, parallelism: Option<usize>) -> (r: ContextParams)
        ensures
            r == crate::context::context_params(n_ctx, max_seqs, parallelism),
            r.n_ctx == if n_ctx == 0 {
                None
            } else {
                Some(n_ctx)
            },
            r.n_batch == n_ctx,
            r.n_ubatch == n_ctx,
            max_seqs >= 0 ==> r.n_seq_max == max_seqs,
    {
        let threads: i32 = match parallelism {
            Some(n) => #[verifier::truncate]
            (n as i32),
            None => FALLBACK_THREADS,
        };
        ContextParams {
            n_ctx: if n_ctx == 0 {
                None
            } else {
                Some(n_ctx)
            },
            n_batch: n_ctx,
            n_ubatch: n_ctx,
            n_threads: threads,
            n_threads_batch: threads,
            embeddings: true,
            pooling_type: PoolingType::Mean,
            n_seq_max: #[verifier::truncate]
            (max_seqs as u32),
            kv_unified: true,
        }
    }

    /// The dimension of the vectors.
    pub fn dimension(&self) -> (r: usize)
        ensures
            r == self@.dimension,
    {
        self.dimension
    }

    /// Begins a call on `n_texts` texts, with a heartbeat beside it. The run
    /// ends with one vector per text, truncated and normalized to the
    /// embedder's dimension.
    pub fn embed_blocking(&self, n_texts: usize) -> (r: EmbedCall)
        ensures
            r.is_fresh(self@, n_texts),
    {
        EmbedCall {
            run: EmbedRun::new(n_texts, self.dimension, self.n_ctx, self.max_seqs),
            heartbeat: Heartbeat::new(n_texts, self.heartbeat_interval),
        }
    }

    /// The vector of a single text, from the result of a call on that text alone.
    pub fn embed(result: Result<Vec<Embedding>, GgufEmbedError>) -> (r: Result<
        Embedding,
        GgufEmbedError,
    >)
        ensures
            match result {
                Err(e) => r == Err::<Embedding, GgufEmbedError>(e),
                Ok(vectors) => if vectors@.len() == 0 {
                    r == Err::<Embedding, GgufEmbedError>(GgufEmbedError::EmptyResult)
                } else {
                    r == Ok::<Embedding, GgufEmbedError>(vectors@.last())
                },
            },
    {
        match result {
            Err(e) => Err(e),
            Ok(vectors) => {
                let mut vectors = vectors;
                match vectors.pop() {
                    Some(vector) => Ok(vector),
                    None => Err(GgufEmbedError::EmptyResult),
                }
            },
        }
    }

    /// Begins a batch call on `n_texts` texts. Without any text it is done at
    /// once, and the context is not touched.
    pub fn embed_batch(&self, n_texts: usize) -> (r: BatchStart)
        ensures
            match r {
                BatchStart::Done(vectors) => n_texts == 0 && vectors@.len() == 0,
                BatchStart::Run(call) => n_texts > 0 && call.is_fresh(self@, n_texts),
            },
    {
        if n_texts == 0 {
            BatchStart::Done(Vec::new())
        } else {
            BatchStart::Run(self.embed_blocking(n_texts))
        }
    }
}

/// Loading gives the configured embedder where nothing goes wrong, and
/// otherwise the error of the first thing that does: the model, then the
/// backend, then the context.
pub proof fn law_load_reports_the_first_failure(
    config: GgufEmbedderConfig,
    parallelism: Option<usize>,
    model: Option<GgufEmbedError>,
    backend: Option<GgufEmbedError>,
    context: Option<String>,
)
    ensures
        load_result(config, parallelism, model, backend, context) == match (
            model,
            backend,
            context,
        ) {
            (Some(e), _, _) => LoadActionView::Fail(e),
            (None, Some(e), _) => LoadActionView::Fail(e),
            (None, None, Some(reason)) => LoadActionView::Fail(
                GgufEmbedError::ContextCreation(reason),
            ),
            (None, None, None) => LoadActionView::Finish(configured(config)),
        },
{
}

/// A batch call without texts gives what a run on no texts gives: nothing.
pub proof fn law_empty_batch_matches_empty_run(embedder: EmbedderView)
    ensures
        crate::run::RunView::initial(
            0,
            embedder.dimension,
            embedder.n_ctx,
            embedder.max_seqs,
        ).at(crate::run::Stage::Lock).step(crate::run::EmbedEvent::Locked).1
            == crate::run::ActionView::Finish(Seq::empty()),
{
    let run = crate::run::RunView::initial(
        0,
        embedder.dimension,
        embedder.n_ctx,
        embedder.max_seqs,
    ).at(crate::run::Stage::Lock);
    crate::run::lemma_pending(run.tokens);
    assert(crate::run::pending_before(run.tokens, 0) == 0);
    assert(run.buckets() =~= Seq::empty());
    assert(crate::run::output(run.dim, run.tokens, run.pooled) =~= Seq::empty());
}

/// A call on a single text that succeeds always has a vector to hand out, and
/// it is the one that belongs to the text.
pub proof fn law_single_text_has_a_vector(
    embedder: EmbedderView,
    events: Seq<crate::run::EmbedEvent>,
    vectors: Vec<Embedding>,
)
    requires
        events.len() > 0,
        ({
            let start = crate::run::RunView::initial(
                1,
                embedder.dimension,
                embedder.n_ctx,
                embedder.max_seqs,
            );
            &&& crate::run_laws::answers(start, events)
            &&& crate::run_laws::last_action(start, events) == crate::run::ActionView::Finish(
                crate::run::embedding_views(vectors@),
            )
        }),
    ensures
        vectors@.len() == 1,
        vectors@.last()@ == crate::run::output(
            embedder.dimension,
            crate::run_laws::tokens_of(events, embedder.n_ctx),
            crate::run_laws::vectors_of(events, embedder.dimension),
        )[0],
        vectors@.last()@.values.len() == embedder.dimension,
{
    let out = crate::run::embedding_views(vectors@);
    crate::run_laws::law_finished_run(
        1,
        embedder.dimension,
        embedder.n_ctx,
        embedder.max_seqs,
        events,
        out,
    );
    assert(out[0] == vectors@[0]@);
    assert(out[0].values.len() == embedder.dimension);
}

/// Every batch of a call fits the context that the same configuration creates:
/// its tokens fit the context window where one is set, it is pooled in a single
/// physical batch, and with a positive sequence limit
/// it has no more sequences than the context allows, and their ids and their
/// number are exact.
pub proof fn law_batch_fits_its_context(
    config: GgufEmbedderConfig,
    parallelism: Option<usize>,
    run: crate::run::RunView,
    event: crate::run::EmbedEvent,
)
    requires
        run.n_ctx == configured(config).n_ctx,
        run.max_seqs == configured(config).max_seqs,
        run.valid(),
        run.expects(event),
        run.step(event).1 is BuildBatch,
    ensures
        ({
            let params = crate::context::context_params(
                config.n_ctx,
                config.max_seqs,
                parallelism,
            );
            let batch = run.step(event).1->BuildBatch_0;
            &&& batch.total_tokens <= params.n_ubatch
            &&& batch.total_tokens <= params.n_batch
            &&& params.n_ctx matches Some(window) ==> batch.total_tokens <= window
            &&& forall|s: int|
                0 <= s < batch.sequences.len() ==> (params.n_ctx matches Some(window) ==> (
                #[trigger] batch.sequences[s]).tokens.len() <= window)
            &&& params.kv_unified
            &&& config.max_seqs > 0 ==> {
                &&& batch.sequences.len() <= params.n_seq_max
                &&& batch.n_seqs == batch.sequences.len()
                &&& forall|s: int|
                    0 <= s < batch.sequences.len() ==> (#[trigger] batch.sequences[s]).seq_id == s
            }
        }),
{
    crate::run_laws::law_batch_fits_the_context(run, event);
}

/// An embedder does what it was configured to do, whatever that is: the
/// dimension, the context window, the sequence limit and the heartbeat are
/// those of the configuration. A negative limit is above every positive one.
pub proof fn law_embedder_is_as_configured(config: GgufEmbedderConfig)
    ensures
        configured(config).dimension == config.dimension,
        configured(config).n_ctx == config.n_ctx,
        config.max_seqs >= 0 ==> configured(config).max_seqs == config.max_seqs,
        config.max_seqs < 0 ==> configured(config).max_seqs > i32::MAX,
        configured(config).heartbeat_interval == config.heartbeat_interval.total_nanos(),
{
    let max_seqs = config.max_seqs;
    if max_seqs < 0 {
        assert(max_seqs as usize > 0x7fff_ffff) by (bit_vector)
            requires
                max_seqs < 0,
        ;
    }
}

/// Loading asks for the model with the configured GPU layers, for a context
/// with the configured window and sequence limit, and ends with the configured
/// embedder. A model or a backend that is missing ends it with its own error,
/// a context that is missing with the reason why.
pub proof fn law_load_follows_the_configuration(
    config: GgufEmbedderConfig,
    parallelism: Option<usize>,
    e: GgufEmbedError,
    reason: String,
)
    ensures
        load_action(config, parallelism, LoadEvent::Start) == (LoadActionView::AcquireModel {
            gpu_layers: config.gpu_layers,
        }),
        load_action(config, parallelism, LoadEvent::ModelReady) is AcquireBackend,
        load_action(config, parallelism, LoadEvent::BackendReady) is CreateContext,
        ({
            let params = load_action(
                config,
                parallelism,
                LoadEvent::BackendReady,
            )->CreateContext_0;
            &&& config.n_ctx > 0 ==> params.n_ctx == Some(config.n_ctx)
            &&& config.n_ctx == 0 ==> params.n_ctx is None
            &&& params.n_batch == config.n_ctx
            &&& params.n_ubatch == config.n_ctx
            &&& config.max_seqs >= 0 ==> params.n_seq_max == config.max_seqs
            &&& parallelism is None ==> params.n_threads == 4
            &&& parallelism matches Some(n) ==> n <= i32::MAX ==> params.n_threads == n
        }),
        load_action(config, parallelism, LoadEvent::ContextReady) is Finish,
        ({
            let embedder = load_action(config, parallelism, LoadEvent::ContextReady)->Finish_0;
            &&& embedder.dimension == config.dimension
            &&& embedder.n_ctx == config.n_ctx
            &&& config.max_seqs >= 0 ==> embedder.max_seqs == config.max_seqs
            &&& embedder.heartbeat_interval == config.heartbeat_interval.total_nanos()
        }),
        load_action(config, parallelism, LoadEvent::ModelFailed(e)) == LoadActionView::Fail(e),
        load_action(config, parallelism, LoadEvent::BackendFailed(e)) == LoadActionView::Fail(e),
        load_action(config, parallelism, LoadEvent::ContextFailed(reason)) == LoadActionView::Fail(
            GgufEmbedError::ContextCreation(reason),
        ),
{
    crate::context::law_context_is_as_configured(config.n_ctx, config.max_seqs, parallelism);
    law_embedder_is_as_configured(config);
}

/// The contents of a step are what the step itself holds.
pub proof fn law_load_action_contents(action: LoadAction)
    ensures
        match action {
            LoadAction::AcquireModel { gpu_layers } => action@ == (LoadActionView::AcquireModel {
                gpu_layers,
            }),
            LoadAction::AcquireBackend => action@ is AcquireBackend,
            LoadAction::CreateContext(params) => action@ == LoadActionView::CreateContext(params),
            LoadAction::Finish(embedder) => action@ == LoadActionView::Finish(embedder@),
            LoadAction::Fail(e) => action@ == LoadActionView::Fail(e),
        },
{
}

/// A call on a configured embedder is a run on all of its texts, for the
/// configured dimension, window and limit, that waits to be started; and the
/// heartbeat beside it counts the same texts, in configured intervals, from zero.
pub proof fn law_call_uses_the_configuration(
    config: GgufEmbedderConfig,
    call: EmbedCall,
    n_texts: usize,
)
    requires
        call.is_fresh(configured(config), n_texts),
    ensures
        call.run@.n_texts == n_texts,
        call.run@.dim == config.dimension,
        call.run@.n_ctx == config.n_ctx,
        config.max_seqs >= 0 ==> call.run@.max_seqs == config.max_seqs,
        call.run@.tokens.len() == 0,
        call.run@.pooled.len() == 0,
        call.run@.stage is New,
        call.run@.valid(),
        call.heartbeat@.n_texts == n_texts,
        call.heartbeat@.interval == config.heartbeat_interval.total_nanos(),
        call.heartbeat@.elapsed == 0,
{
    law_embedder_is_as_configured(config);
}

/// Every vector that a call on a configured embedder returns has exactly the
/// configured number of entries, and there is one for each text.
pub proof fn law_vectors_have_the_configured_dimension(
    config: GgufEmbedderConfig,
    call: EmbedCall,
    n_texts: usize,
    events: Seq<crate::run::EmbedEvent>,
    out: Seq<crate::vector::EmbeddingView>,
)
    requires
        call.is_fresh(configured(config), n_texts),
        events.len() > 0,
        crate::run_laws::answers(call.run@, events),
        crate::run_laws::last_action(call.run@, events) == crate::run::ActionView::Finish(out),
    ensures
        out.len() == n_texts,
        forall|i: int|
            0 <= i < n_texts ==> (#[trigger] out[i]).values.len() == config.dimension,
{
    law_call_uses_the_configuration(config, call, n_texts);
    crate::run_laws::law_finished_run(
        n_texts,
        call.run@.dim,
        call.run@.n_ctx,
        call.run@.max_seqs,
        events,
        out,
    );
}

/// In a call on a configured embedder no text loses a token that the configured
/// window has room for: a text with at most that many tokens enters its batch
/// with all of them, unchanged, and no batch exceeds the window of the context
/// that the same configuration creates.
pub proof fn law_window_is_used_in_full(
    config: GgufEmbedderConfig,
    parallelism: Option<usize>,
    call: EmbedCall,
    n_texts: usize,
    events: Seq<crate::run::EmbedEvent>,
    batch: crate::run::BatchView,
    text: int,
)
    requires
        call.is_fresh(configured(config), n_texts),
        events.len() > 0,
        crate::run_laws::answers(call.run@, events),
        crate::run_laws::last_action(call.run@, events) == crate::run::ActionView::BuildBatch(
            batch,
        ),
        0 <= text < n_texts,
    ensures
        ({
            let brought = crate::call_laws::tokens_brought(events);
            let done = crate::call_laws::vectors_brought(events).len() as int;
            let n_ctx = config.n_ctx as usize;
            let s = crate::call_laws::embedded_before(brought, n_ctx, text) - done;
            let params = crate::context::context_params(
                config.n_ctx,
                config.max_seqs,
                parallelism,
            );
            &&& brought.len() == n_texts
            &&& 0 < brought[text].len() <= config.n_ctx && 0 <= s < batch.sequences.len()
                ==> batch.sequences[s].tokens == brought[text]
            &&& batch.total_tokens <= config.n_ctx
            &&& params.n_ctx matches Some(window) ==> batch.total_tokens <= window
        }),
{
    law_call_uses_the_configuration(config, call, n_texts);
    crate::context::law_context_is_as_configured(config.n_ctx, config.max_seqs, parallelism);
    let run = call.run@;
    crate::call_laws::law_batches_hold_the_tokens_of_texts(
        n_texts,
        run.dim,
        run.n_ctx,
        run.max_seqs,
        events,
        batch,
    );
    crate::call_laws::law_batches_are_filled_up(
        n_texts,
        run.dim,
        run.n_ctx,
        run.max_seqs,
        events,
        batch,
        text,
    );
    let brought = crate::call_laws::tokens_brought(events);
    assert(crate::call_laws::fitting(brought[text], run.n_ctx) <= brought[text].len());
}

} // verus!
