//! What the operations of the library give, stated of their arguments and
//! their results alone.
use vstd::prelude::*;

use crate::backend::{backend, gpu_layers_override, gpu_layers_override_ignored};
use crate::backend::{BackendAction, BackendEvent};
use crate::bits::{is_finite, is_less};
use crate::bucket::bucket_by_token_budget;
use crate::cache::{ModelAction, ModelCache, ModelEvent};
use crate::config::GgufEmbedderConfig;
use crate::context::{ContextParams, PoolingType};
use crate::embedder::{load_task_result, BatchStart, EmbedCall, GgufEmbedder, LoadAction, LoadEvent};
use crate::error::{EmbeddingError, GgufEmbedError};
use crate::heartbeat::{Heartbeat, HeartbeatAction, HeartbeatEvent};
use crate::interval::Interval;
use crate::run::{EmbedAction, EmbedEvent, EmbedRun};
use crate::vector::{truncate_and_normalize, validate_raw_vector, zero_vector, Embedding};

verus! {

/// A pattern passes as finite unless its exponent has all bits set.
pub proof fn law_is_finite(bits: u32, r: bool)
    requires
        call_ensures(is_finite, (bits,), r),
    ensures
        r <==> crate::bits::exponent(bits) != 0xff,
{
    crate::bits::law_pattern_classes(bits);
}

/// Finite patterns compare as their numbers, and a pattern that is not a number
/// is never less.
pub proof fn law_is_less(a: u32, b: u32, r: bool)
    requires
        call_ensures(is_less, (a, b), r),
    ensures
        ({
            let (x, y) = (crate::bits::exponent(a), crate::bits::exponent(b));
            &&& x != 0xff && y != 0xff ==> (r <==> crate::bits::number(a) < crate::bits::number(b))
            &&& x == 0xff && crate::bits::fraction(a) != 0 ==> !r
            &&& y == 0xff && crate::bits::fraction(b) != 0 ==> !r
        }),
{
    crate::bits::law_pattern_classes(a);
    crate::bits::law_pattern_classes(b);
    crate::bits::law_less_compares_numbers(a, b);
}

/// A raw vector passes exactly where it has enough entries, all of them are
/// finite, and its norm is not less than `1e-6`.
pub proof fn law_validate_raw_vector(
    raw: &[u32],
    dim: usize,
    norm: u32,
    r: Result<(), EmbeddingError>,
)
    requires
        call_ensures(validate_raw_vector, (raw, dim, norm), r),
        raw@.len() <= usize::MAX,
    ensures
        r is Ok <==> {
            &&& raw@.len() >= dim
            &&& forall|i: int|
                0 <= i < raw@.len() ==> crate::bits::exponent(#[trigger] raw@[i]) != 0xff
            &&& !crate::bits::less(norm, 0x3586_37bd)
        },
        r matches Err(EmbeddingError::DimensionMismatch { got, expected }) ==> raw@.len() < dim
            && got == raw@.len() && expected == dim,
        r matches Err(EmbeddingError::NonFiniteVector) ==> raw@.len() >= dim && exists|i: int|
            0 <= i < raw@.len() && crate::bits::exponent(#[trigger] raw@[i]) == 0xff,
        r matches Err(EmbeddingError::DegenerateVector) ==> raw@.len() >= dim && crate::bits::less(
            norm,
            0x3586_37bd,
        ),
{
    crate::vector::law_validation_refuses_only_faults(raw@, dim, norm);
}

/// The first entries come out in their places, to be divided by the norm,
/// unless the norm is less than `1e-9`: then as many zeros do.
pub proof fn law_truncate_and_normalize(v: Vec<u32>, dim: usize, norm: u32, r: Embedding)
    requires
        call_ensures(truncate_and_normalize, (v, dim, norm), r),
    ensures
        r.values@.len() == if v@.len() < dim {
            v@.len() as int
        } else {
            dim as int
        },
        !crate::bits::less(norm, 0x3089_705f) ==> r.divisor == Some(norm) && forall|i: int|
            0 <= i < r.values@.len() ==> #[trigger] r.values@[i] == v@[i],
        crate::bits::less(norm, 0x3089_705f) ==> r.divisor is None && forall|i: int|
            0 <= i < r.values@.len() ==> #[trigger] r.values@[i] == 0,
{
    crate::vector::law_normalization_keeps_entries(v@, dim, norm);
    crate::vector::law_embedding_contents(r);
    assert(r.values@ == r@.values);
}

/// The zero vector is zero in every dimension.
pub proof fn law_zero_vector(dim: usize, r: Embedding)
    requires
        call_ensures(zero_vector, (dim,), r),
    ensures
        r.values@.len() == dim,
        forall|i: int| 0 <= i < dim ==> #[trigger] r.values@[i] == 0,
        r.divisor is None,
{
    crate::vector::law_zero_vector_is_zero(dim as nat);
    assert(r.values@ == r@.values);
}

/// The buckets, one after the other, are the chunks in input order; none is
/// empty or over a bound, but for a chunk that is over the budget on its own,
/// and each is closed only before a chunk that it has no room for.
pub proof fn law_bucket_by_token_budget(
    counts: &[usize],
    max_tokens: usize,
    max_seqs: usize,
    r: Vec<Vec<usize>>,
    b: int,
)
    requires
        call_ensures(bucket_by_token_budget, (counts, max_tokens, max_seqs), r),
        counts@.len() <= usize::MAX,
    ensures
        r@.map_values(|bucket: Vec<usize>| bucket@).flatten() == Seq::new(
            counts@.len(),
            |i: int| i as usize,
        ),
        max_seqs > 0 && 0 <= b < r@.len() ==> {
            &&& 0 < r@[b]@.len() <= max_seqs
            &&& r@[b]@.len() > 1 ==> crate::bucket::added_up(counts@, r@[b]@) <= max_tokens
            &&& b + 1 < r@.len() ==> {
                ||| r@[b]@.len() == max_seqs
                ||| crate::bucket::added_up(counts@, r@[b]@) + counts@[r@[b + 1]@[0] as int]
                    > max_tokens
            }
        },
{
    let packed = crate::bucket::packing(counts@, max_tokens, max_seqs);
    crate::bucket::law_buckets_joined_are_the_input(counts@, max_tokens, max_seqs);
    assert(r@.map_values(|bucket: Vec<usize>| bucket@) =~= packed);
    if max_seqs > 0 && 0 <= b < r@.len() {
        crate::bucket::law_buckets_are_filled_up(counts@, max_tokens, max_seqs, b);
        assert(r@[b]@ == packed[b]);
        if b + 1 < r@.len() {
            assert(r@[b + 1]@ == packed[b + 1]);
        }
    }
}

/// The way to the backend: see [`crate::backend::law_last_look_decides`].
pub proof fn law_backend(event: BackendEvent, r: BackendAction)
    requires
        call_ensures(backend, (event,), r),
    ensures
        event matches BackendEvent::LookedUp { stored } ==> if stored {
            r is Use
        } else {
            r is Init
        },
        event matches BackendEvent::Initialized { ok } ==> if ok {
            r is RouteLogsAndStore
        } else {
            r is LookUpAgain
        },
        event is Stored ==> r is LookUpAgain,
        event matches BackendEvent::LookedUpAgain { stored } ==> if stored {
            r is Use
        } else {
            r == BackendAction::Fail(GgufEmbedError::BackendInit)
        },
{
    crate::backend::law_last_look_decides(event);
}

/// An override that is a number decides, whatever the machine. Anything else
/// is as if it were not set, but for the warning: a 64-bit Arm machine is then
/// left at the default, and any other is CPU-only.
pub proof fn law_gpu_layers_override(value: Option<&str>, n: nat, aarch64: bool, r: Option<u32>)
    requires
        call_ensures(gpu_layers_override, (value, aarch64), r),
    ensures
        value matches Some(raw) && raw@ == crate::error::decimal(n) && n <= u32::MAX ==> r == Some(
            n as u32,
        ),
        value matches Some(raw) && raw@ == crate::error::decimal(n) && n > u32::MAX ==> r == (
        if aarch64 {
            None::<u32>
        } else {
            Some(0)
        }),
        value is None ==> r == (if aarch64 {
            None::<u32>
        } else {
            Some(0)
        }),
        value matches Some(raw) && raw@.len() == 0 ==> r == (if aarch64 {
            None::<u32>
        } else {
            Some(0)
        }),
        value matches Some(raw) && raw@.len() > 0 && !('0' <= raw@[0] <= '9') && raw@[0] != '+'
            ==> r == (if aarch64 {
            None::<u32>
        } else {
            Some(0)
        }),
{
    crate::backend::law_every_number_is_read(n);
    crate::backend::law_default_layers(aarch64);
    if let Some(raw) = value {
        crate::backend::law_only_digits_are_read(raw@, 0);
    }
}

/// An override is ignored only if it is set, and never if it is a number that fits.
pub proof fn law_gpu_layers_override_ignored(value: Option<&str>, n: nat, r: bool)
    requires
        call_ensures(gpu_layers_override_ignored, (value,), r),
    ensures
        value is None ==> !r,
        value matches Some(raw) && raw@ == crate::error::decimal(n) ==> (r <==> n > u32::MAX),
        value matches Some(raw) && raw@.len() == 0 ==> r,
{
    crate::backend::law_every_number_is_read(n);
    if let Some(raw) = value {
        crate::backend::law_only_digits_are_read(raw@, 0);
    }
}

/// A new configuration has the given dimension, and the defaults for the rest.
pub proof fn law_default_configuration(dimension: usize, r: GgufEmbedderConfig)
    requires
        call_ensures(GgufEmbedderConfig::new, (dimension,), r),
    ensures
        r.dimension == dimension,
        r.gpu_layers is None,
        r.n_ctx == 2048,
        r.max_seqs == 8,
        r.heartbeat_interval.total_nanos() == 15_000_000_000,
{
}

/// Each builder sets its own field, to whatever it is given, and no other.
pub proof fn law_builders_set_one_field(
    config: GgufEmbedderConfig,
    gpu_layers: Option<u32>,
    n_ctx: u32,
    max_seqs: i32,
    a: GgufEmbedderConfig,
    b: GgufEmbedderConfig,
    c: GgufEmbedderConfig,
)
    requires
        call_ensures(GgufEmbedderConfig::with_gpu_layers, (config, gpu_layers), a),
        call_ensures(GgufEmbedderConfig::with_n_ctx, (config, n_ctx), b),
        call_ensures(GgufEmbedderConfig::with_max_seqs, (config, max_seqs), c),
    ensures
        a.gpu_layers == gpu_layers,
        b.n_ctx == n_ctx,
        c.max_seqs == max_seqs,
        b.gpu_layers == config.gpu_layers && c.gpu_layers == config.gpu_layers,
        a.n_ctx == c.n_ctx == config.n_ctx,
        a.max_seqs == b.max_seqs == config.max_seqs,
        a.dimension == b.dimension == c.dimension == config.dimension,
        a.heartbeat_interval == config.heartbeat_interval,
        b.heartbeat_interval == config.heartbeat_interval,
        c.heartbeat_interval == config.heartbeat_interval,
{
}

/// The parameters of a context are those that were given.
pub proof fn law_ctx_params(
    n_ctx: u32,
    max_seqs: i32,
    parallelism: Option<usize>,
    r: ContextParams,
)
    requires
        call_ensures(GgufEmbedder::ctx_params, (n_ctx, max_seqs, parallelism), r),
    ensures
        n_ctx > 0 ==> r.n_ctx == Some(n_ctx),
        n_ctx == 0 ==> r.n_ctx is None,
        r.n_batch == n_ctx,
        r.n_ubatch == n_ctx,
        max_seqs >= 0 ==> r.n_seq_max == max_seqs,
        parallelism is None ==> r.n_threads == 4,
        parallelism matches Some(n) ==> n <= i32::MAX ==> r.n_threads == n,
        r.n_threads_batch == r.n_threads,
        r.embeddings && r.kv_unified,
        r.pooling_type == PoolingType::Mean,
{
    crate::context::law_context_is_as_configured(n_ctx, max_seqs, parallelism);
}

/// An embedder that was made from a configuration has its dimension, and a call
/// on it runs with its settings, on as many texts as it was called on.
pub proof fn law_embedder_runs_as_configured(
    config: &GgufEmbedderConfig,
    embedder: GgufEmbedder,
    dimension: usize,
    n_texts: usize,
    call: EmbedCall,
)
    requires
        call_ensures(GgufEmbedder::new, (config,), embedder),
        call_ensures(GgufEmbedder::dimension, (&embedder,), dimension),
        call_ensures(GgufEmbedder::embed_blocking, (&embedder, n_texts), call),
    ensures
        dimension == config.dimension,
        call.run@.n_texts == n_texts,
        call.run@.dim == config.dimension,
        call.run@.n_ctx == config.n_ctx,
        config.max_seqs >= 0 ==> call.run@.max_seqs == config.max_seqs,
        call.run@.stage is New,
        call.run@.valid(),
        call.run.wf(),
        call.heartbeat@.n_texts == n_texts,
        call.heartbeat@.interval == config.heartbeat_interval.total_nanos(),
        call.heartbeat@.elapsed == 0,
{
    crate::embedder::law_call_uses_the_configuration(*config, call, n_texts);
}

/// A batch call is done at once exactly where there is no text, and with no
/// vector; otherwise it is a call on all of its texts.
pub proof fn law_embed_batch(embedder: &GgufEmbedder, n_texts: usize, r: BatchStart)
    requires
        call_ensures(GgufEmbedder::embed_batch, (embedder, n_texts), r),
    ensures
        r is Done <==> n_texts == 0,
        r matches BatchStart::Done(vectors) ==> vectors@.len() == 0,
        r matches BatchStart::Run(call) ==> {
            &&& call.run.wf()
            &&& call.run@.n_texts == n_texts
            &&& call.run@.dim == embedder@.dimension
            &&& call.run@.n_ctx == embedder@.n_ctx
            &&& call.run@.max_seqs == embedder@.max_seqs
            &&& call.run@.stage is New
            &&& call.heartbeat@.n_texts == n_texts
            &&& call.heartbeat@.interval == embedder@.heartbeat_interval
            &&& call.heartbeat@.elapsed == 0
        },
{
}

/// The vector of a single text is the one that the call on it gave; an error
/// stays as it is, and a call that gave nothing is an error.
pub proof fn law_embed(
    result: Result<Vec<Embedding>, GgufEmbedError>,
    r: Result<Embedding, GgufEmbedError>,
)
    requires
        call_ensures(GgufEmbedder::embed, (result,), r),
    ensures
        result matches Ok(vectors) ==> vectors@.len() == 1 ==> r == Ok::<Embedding, GgufEmbedError>(
            vectors@[0],
        ),
        result matches Ok(vectors) ==> vectors@.len() == 0 ==> r == Err::<
            Embedding,
            GgufEmbedError,
        >(GgufEmbedError::EmptyResult),
        result matches Err(e) ==> r == Err::<Embedding, GgufEmbedError>(e),
        r is Ok <==> (result is Ok && result->Ok_0@.len() > 0),
{
}

/// A load task that ran to its end gives its own result, and one that panicked
/// the reason.
pub proof fn law_load_task_result<T>(
    joined: Result<Result<T, GgufEmbedError>, String>,
    r: Result<T, GgufEmbedError>,
)
    requires
        call_ensures(load_task_result::<T>, (joined,), r),
    ensures
        joined matches Ok(result) ==> r == result,
        joined matches Err(reason) ==> r == Err::<T, GgufEmbedError>(
            GgufEmbedError::LoadTaskPanicked(reason),
        ),
{
}

/// Loading asks for what the configuration says, step by step; see
/// [`crate::embedder::law_load_follows_the_configuration`].
pub proof fn law_load_blocking(
    config: &GgufEmbedderConfig,
    parallelism: Option<usize>,
    event: LoadEvent,
    r: LoadAction,
)
    requires
        call_ensures(GgufEmbedder::load_blocking, (config, parallelism, event), r),
    ensures
        match event {
            LoadEvent::Start => r is AcquireModel && r->gpu_layers == config.gpu_layers,
            LoadEvent::ModelReady => r is AcquireBackend,
            LoadEvent::ModelFailed(e) => r == LoadAction::Fail(e),
            LoadEvent::BackendReady => r is CreateContext && {
                let params = r->CreateContext_0;
                &&& config.n_ctx > 0 ==> params.n_ctx == Some(config.n_ctx)
                &&& config.n_ctx == 0 ==> params.n_ctx is None
                &&& params.n_batch == config.n_ctx
                &&& params.n_ubatch == config.n_ctx
                &&& config.max_seqs >= 0 ==> params.n_seq_max == config.max_seqs
            },
            LoadEvent::BackendFailed(e) => r == LoadAction::Fail(e),
            LoadEvent::ContextReady => r is Finish && {
                let embedder = r->Finish_0@;
                &&& embedder.dimension == config.dimension
                &&& embedder.n_ctx == config.n_ctx
                &&& config.max_seqs >= 0 ==> embedder.max_seqs == config.max_seqs
                &&& embedder.heartbeat_interval == config.heartbeat_interval.total_nanos()
            },
            LoadEvent::ContextFailed(reason) => r == LoadAction::Fail(
                GgufEmbedError::ContextCreation(reason),
            ),
        },
{
    match event {
        LoadEvent::ModelFailed(e) => {
            crate::embedder::law_load_follows_the_configuration(
                *config,
                parallelism,
                e,
                arbitrary(),
            );
        },
        LoadEvent::BackendFailed(e) => {
            crate::embedder::law_load_follows_the_configuration(
                *config,
                parallelism,
                e,
                arbitrary(),
            );
        },
        LoadEvent::ContextFailed(reason) => {
            crate::embedder::law_load_follows_the_configuration(
                *config,
                parallelism,
                GgufEmbedError::BackendInit,
                reason,
            );
        },
        _ => {
            crate::embedder::law_load_follows_the_configuration(
                *config,
                parallelism,
                GgufEmbedError::BackendInit,
                arbitrary(),
            );
        },
    }
    crate::embedder::law_load_action_contents(r);
}

/// A new run has the settings that it was given, and can be started.
pub proof fn law_new_embed_run(
    n_texts: usize,
    dim: usize,
    n_ctx: usize,
    max_seqs: usize,
    run: EmbedRun,
    event: &EmbedEvent,
    r: bool,
)
    requires
        call_ensures(EmbedRun::new, (n_texts, dim, n_ctx, max_seqs), run),
        call_ensures(EmbedRun::expects, (&run, event), r),
    ensures
        run.wf(),
        run@.n_texts == n_texts,
        run@.dim == dim,
        run@.n_ctx == n_ctx,
        run@.max_seqs == max_seqs,
        run@.tokens.len() == 0,
        run@.pooled.len() == 0,
        r <==> *event is Start,
{
    crate::call_laws::law_new_run(n_texts, dim, n_ctx, max_seqs, *event);
}

/// A span gives back the parts that it was made from, and a span is made from
/// every number of nanoseconds that is less than a second.
pub proof fn law_interval_parts(
    secs: u64,
    nanos: u32,
    made: Option<Interval>,
    got_secs: u64,
    got_nanos: u32,
    millis: u128,
)
    requires
        call_ensures(Interval::from_parts, (secs, nanos), made),
        made matches Some(span) ==> call_ensures(Interval::as_secs, (&span,), got_secs),
        made matches Some(span) ==> call_ensures(Interval::subsec_nanos, (&span,), got_nanos),
        made matches Some(span) ==> call_ensures(Interval::as_millis, (&span,), millis),
    ensures
        made is Some <==> nanos < 1_000_000_000,
        made matches Some(span) ==> {
            &&& got_secs == secs
            &&& got_nanos == nanos
            &&& millis == secs * 1_000 + nanos / 1_000_000
            &&& span.total_nanos() == secs * 1_000_000_000 + nanos
        },
{
}

/// Spans add up to the nanosecond, and their sum is refused only where its
/// seconds would not fit.
pub proof fn law_interval_sum(a: &Interval, b: &Interval, sum: Option<Interval>)
    requires
        call_ensures(Interval::checked_add, (a, b), sum),
    ensures
        sum is Some <==> a.total_nanos() + b.total_nanos() < (u64::MAX + 1) * 1_000_000_000,
        sum matches Some(span) ==> span.total_nanos() == a.total_nanos() + b.total_nanos(),
        a.total_nanos() == a.seconds() * 1_000_000_000 + a.beyond_seconds(),
        b.total_nanos() == b.seconds() * 1_000_000_000 + b.beyond_seconds(),
{
}

/// A heartbeat waits one interval at a time, and starts from zero.
pub proof fn law_new_heartbeat(
    n_texts: usize,
    interval: Interval,
    heartbeat: Heartbeat,
    wait: Interval,
)
    requires
        call_ensures(Heartbeat::new, (n_texts, interval), heartbeat),
        call_ensures(Heartbeat::interval, (&heartbeat,), wait),
    ensures
        wait.total_nanos() == interval.total_nanos(),
        heartbeat@.n_texts == n_texts,
        heartbeat@.elapsed == 0,
{
}

/// A heartbeat warns after every interval that passes, with the number of texts
/// and all the whole milliseconds that have passed by then; anything else stops it.
pub proof fn law_heartbeat_warns(
    heartbeat: &mut Heartbeat,
    event: HeartbeatEvent,
    r: HeartbeatAction,
)
    requires
        call_ensures(Heartbeat::on_event, (heartbeat, event), r),
    ensures
        r is Warn <==> event is TimedOut,
        r matches HeartbeatAction::Warn { n_texts, elapsed_ms } ==> {
            let passed = old(heartbeat)@.elapsed + old(heartbeat)@.interval;
            &&& n_texts == old(heartbeat)@.n_texts
            &&& 0 <= passed < 1_000_000 * (u64::MAX + 1) ==> elapsed_ms == passed / 1_000_000
        },
{
}

/// What a cache gives for a path is what it keeps for it; a new one keeps nothing.
pub proof fn law_cache_lookup<M: Copy>(
    empty: ModelCache<M>,
    cache: &ModelCache<M>,
    key: &Vec<u8>,
    r: Option<M>,
)
    requires
        call_ensures(ModelCache::<M>::new, (), empty),
        call_ensures(ModelCache::<M>::get, (cache, key), r),
    ensures
        !empty@.dom().contains(key@),
        r is Some <==> cache@.dom().contains(key@),
        r matches Some(model) ==> model == cache@[key@],
{
}

/// A step of a run takes what the answer brings, as it is, and asks for what is
/// due: for a text, by the number of texts that it has the tokens of.
pub proof fn law_embed_run_step(run: &mut EmbedRun, event: EmbedEvent, r: EmbedAction)
    requires
        call_ensures(EmbedRun::step, (run, event), r),
        old(run).wf(),
        old(run)@.expects(event),
    ensures
        final(run).wf(),
        final(run)@.dim == old(run)@.dim,
        final(run)@.n_ctx == old(run)@.n_ctx,
        final(run)@.max_seqs == old(run)@.max_seqs,
        final(run)@.n_texts == old(run)@.n_texts,
        event matches EmbedEvent::Tokenized(tokens) ==> {
            &&& final(run)@.tokens.len() == old(run)@.tokens.len() + 1
            &&& final(run)@.tokens.drop_last() == old(run)@.tokens
            &&& crate::call_laws::is_start(final(run)@.tokens.last(), tokens@, old(run)@.n_ctx)
        },
        r matches EmbedAction::Tokenize { index } ==> index == final(run)@.tokens.len(),
        event is Start <==> r is LockContext,
        event is BatchBuilt <==> r is ClearKvCache,
        event is KvCacheCleared <==> r is Encode,
        r matches EmbedAction::Fail(e) ==> match event {
            EmbedEvent::LockPoisoned => e == GgufEmbedError::LockPoisoned,
            EmbedEvent::TokenizeFailed(reason) => e == GgufEmbedError::Tokenize(reason),
            EmbedEvent::BatchFailed(reason) => e == GgufEmbedError::BatchConstruction(reason),
            EmbedEvent::EncodeFailed(reason) => e == GgufEmbedError::Encode(reason),
            EmbedEvent::ReadFailed(reason) => e == GgufEmbedError::ReadEmbedding(reason),
            EmbedEvent::Pooled { raw, norm } => e is Validation,
            _ => false,
        },
{
    let before = old(run)@;
    crate::run::law_well_formed_run_is_valid(*old(run));
    crate::call_laws::law_answers_are_taken_as_they_are(before, event);
    crate::call_laws::law_actions_come_in_order(before, event);
    crate::call_laws::law_errors_name_their_cause(before, event);
    crate::run_laws::law_next_text_is_asked_for(before, event);
    crate::call_laws::law_action_contents(r);
}

/// A step on the way to a model changes the cache only where a model was
/// loaded, and only for its path; a model that is kept is used as it is.
pub proof fn law_get_or_load_model<M: Copy>(
    cache: &mut ModelCache<M>,
    key: &Vec<u8>,
    gpu_layers: Option<u32>,
    event: ModelEvent<M>,
    r: ModelAction<M>,
    other: Seq<u8>,
)
    requires
        call_ensures(ModelCache::<M>::get_or_load_model, (cache, key, gpu_layers, event), r),
    ensures
        event is Requested && old(cache)@.dom().contains(key@) ==> r == ModelAction::Use(
            old(cache)@[key@],
        ),
        event is Requested && !old(cache)@.dom().contains(key@) ==> r is AcquireBackend,
        event is BackendReady ==> r is Load && r->n_gpu_layers == gpu_layers,
        event matches ModelEvent::Loaded(model) ==> {
            &&& r == ModelAction::Use(model)
            &&& final(cache)@.dom().contains(key@)
            &&& final(cache)@[key@] == model
        },
        event matches ModelEvent::BackendFailed(e) ==> r == ModelAction::<M>::Fail(e),
        event matches ModelEvent::LoadFailed { path, reason } ==> r == ModelAction::<M>::Fail(
            GgufEmbedError::ModelLoad { path, reason },
        ),
        event is LockPoisoned ==> r == ModelAction::<M>::Fail(GgufEmbedError::LockPoisoned),
        other != key@ || !(event is Loaded) ==> {
            &&& final(cache)@.dom().contains(other) <==> old(cache)@.dom().contains(other)
            &&& old(cache)@.dom().contains(other) ==> final(cache)@[other] == old(cache)@[other]
        },
{
    crate::cache::law_model_is_fetched_step_by_step(old(cache)@, key@, gpu_layers, event);
    crate::cache::law_loading_changes_one_path(old(cache)@, key@, event, other);
}

} // verus!
