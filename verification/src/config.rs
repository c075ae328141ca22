//! How an embedder is set up.
use vstd::prelude::*;

use crate::interval::Interval;

verus! {

/// Seconds between two heartbeats of a slow embed call, unless configured
/// otherwise. Pick a value that matches whatever stall detection on the
/// caller's side it is correlated with.
pub const DEFAULT_HEARTBEAT_SECS: u64 = 15;

/// Configuration of an embedder. `dimension` is the only field without a
/// sensible default: it is a truncation target that the caller decides, tied
/// to whatever vector index the embeddings feed.
#[derive(Debug, Clone)]
pub struct GgufEmbedderConfig {
    /// Truncate and normalize pooled embeddings to this many dimensions.
    pub dimension: usize,
    /// `None` leaves GPU offload at the llama.cpp default. The environment is
    /// not read here; see [`crate::backend::gpu_layers_override`].
    pub gpu_layers: Option<u32>,
    /// Context window. Chunks longer than this are truncated. Also bounds
    /// `n_batch` and `n_ubatch`, so that a whole sequence pools in a single
    /// ubatch, which pooled embeddings require.
    pub n_ctx: u32,
    /// Max chunks packed into one multi-sequence encode call.
    pub max_seqs: i32,
    /// Heartbeat cadence of a long-running embed call.
    pub heartbeat_interval: Interval,
}

impl GgufEmbedderConfig {
    /// Defaults around `dimension`: a 2048-token context, which EmbeddingGemma
    /// is trained at, and 8 sequences per batch, a reasonable bound on
    /// per-batch bookkeeping (see [`crate::bucket::bucket_by_token_budget`]).
    pub fn new(dimension: usize) -> (r: Self)
        ensures
            r.dimension == dimension,
            r.gpu_layers is None,
            r.n_ctx == 2048,
            r.max_seqs == 8,
            r.heartbeat_interval.seconds() == DEFAULT_HEARTBEAT_SECS == 15,
            r.heartbeat_interval.beyond_seconds() == 0,
    {
        Self {
            dimension,
            gpu_layers: None,
            n_ctx: 2048,
            max_seqs: 8,
            heartbeat_interval: Interval::from_secs(DEFAULT_HEARTBEAT_SECS),
        }
    }

    /// The same configuration with another GPU layer count.
    pub fn with_gpu_layers(self, gpu_layers: Option<u32>) -> (r: Self)
        ensures
            r == (GgufEmbedderConfig { gpu_layers, ..self }),
    {
        Self { gpu_layers, ..self }
    }

    /// The same configuration with another context window.
    pub fn with_n_ctx(self, n_ctx: u32) -> (r: Self)
        ensures
            r == (GgufEmbedderConfig { n_ctx, ..self }),
    {
        Self { n_ctx, ..self }
    }

    /// The same configuration with another bound on the sequences per batch.
    pub fn with_max_seqs(self, max_seqs: i32) -> (r: Self)
        ensures
            r == (GgufEmbedderConfig { max_seqs, ..self }),
    {
        Self { max_seqs, ..self }
    }
}

} // verus!
