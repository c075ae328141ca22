//! The decisions of an embedder for GGUF models: given texts, it produces
//! fixed-dimension, L2-normalized embedding vectors via llama.cpp.
//!
//! The library holds what can be decided without llama.cpp, and proves it:
//! how texts are packed into batches, what a call does step by step, which
//! vectors are sound, how models are shared, how an embedder is set up. It
//! touches neither the model nor the machine. Where something has to be done
//! outside, a function here names the action and takes the outcome as an
//! event; the program around the library carries it out.
//!
//! Numbers of single precision appear as their bit patterns ([`bits`]); the
//! arithmetic on them (the norm of a vector, the division by it) is done by
//! the program around the library.
pub mod backend;
pub mod bits;
pub mod bucket;
pub mod cache;
pub mod call_laws;
pub mod config;
pub mod context;
pub mod embedder;
pub mod error;
pub mod heartbeat;
pub mod interval;
pub mod operation_laws;
pub mod run;
pub mod run_laws;
pub mod vector;

pub use backend::{backend, gpu_layers_override};
pub use config::GgufEmbedderConfig;
pub use embedder::GgufEmbedder;
pub use error::{EmbeddingError, GgufEmbedError};
pub use vector::{truncate_and_normalize, validate_raw_vector};
