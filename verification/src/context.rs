//! How the llama.cpp context is set up.
use vstd::prelude::*;

verus! {

/// How the token embeddings of a sequence are pooled into one vector.
#[derive(Debug, Clone, Copy, PartialEq, Eq, Structural)]
pub enum PoolingType {
    /// Their mean.
    Mean,
}

/// The parameters of a llama.cpp context.
#[derive(Debug, Clone, Copy)]
pub struct ContextParams {
    /// The context window; `None` takes it from the model.
    pub n_ctx: Option<u32>,
    /// The largest batch.
    pub n_batch: u32,
    /// The largest physical batch.
    pub n_ubatch: u32,
    /// Threads for single tokens.
    pub n_threads: i32,
    /// Threads for batches.
    pub n_threads_batch: i32,
    /// Whether embeddings are computed.
    pub embeddings: bool,
    /// How embeddings are pooled.
    pub pooling_type: PoolingType,
    /// The largest number of sequences.
    pub n_seq_max: u32,
    /// Whether all sequences share one KV buffer.
    pub kv_unified: bool,
}

/// How many threads are used where the parallelism of the machine is unknown.
pub const FALLBACK_THREADS: i32 = 4;

/// How many threads to use, `parallelism` being that of the machine if it is known.
pub open spec fn threads(parallelism: Option<usize>) -> i32 {
    match parallelism {
        Some(n) => n as i32,
        None => FALLBACK_THREADS,
    }
}

/// The parameters of a context for embeddings.
pub open spec fn context_params(
    n_ctx: u32,
    max_seqs: i32,
    parallelism: Option<usize>,
) -> ContextParams {
    ContextParams {
        n_ctx: if n_ctx == 0 {
            None
        } else {
            Some(n_ctx)
        },
        n_batch: n_ctx,
        n_ubatch: n_ctx,
        n_threads: threads(parallelism),
        n_threads_batch: threads(parallelism),
        embeddings: true,
        pooling_type: PoolingType::Mean,
        n_seq_max: max_seqs as u32,
        kv_unified: true,
    }
}

/// The context that is asked for is the configured one, to the last token: a
/// positive context window is passed on as it is, whatever its size, and is the
/// size of both batches; a window of zero is left to the model. The sequence
/// limit and the number of threads are passed on as they are, embeddings are
/// computed and pooled by their mean, and all sequences share one KV buffer.
pub proof fn law_context_is_as_configured(
    n_ctx: u32,
    max_seqs: i32,
    parallelism: Option<usize>,
)
    ensures
        ({
            let params = context_params(n_ctx, max_seqs, parallelism);
            &&& n_ctx > 0 ==> params.n_ctx == Some(n_ctx)
            &&& n_ctx == 0 ==> params.n_ctx is None
            &&& params.n_batch == n_ctx
            &&& params.n_ubatch == n_ctx
            &&& max_seqs >= 0 ==> params.n_seq_max == max_seqs
            &&& max_seqs < 0 ==> params.n_seq_max == 0x1_0000_0000 + max_seqs
            &&& parallelism is None ==> params.n_threads == 4
            &&& parallelism matches Some(n) ==> n <= i32::MAX ==> params.n_threads == n
            &&& params.n_threads_batch == params.n_threads
            &&& params.embeddings
            &&& params.pooling_type == PoolingType::Mean
            &&& params.kv_unified
        }),
{
    if max_seqs < 0 {
        assert(max_seqs as u32 == 0x1_0000_0000 + max_seqs) by (bit_vector)
            requires
                max_seqs < 0,
        ;
    }
}

} // verus!
