# gguf-embed

Given a path to a GGUF embedding model, produce fixed-dimension, L2-normalized
embedding vectors via [llama.cpp](https://github.com/ggml-org/llama.cpp)
(through `llama-cpp-2`).

The crate has two parts.

- `src/` is a library verified with Verus. It holds the decisions: how texts
  are packed into batches (`bucket`), what an embed call does step by step
  (`run`, with its laws in `run_laws`), which vectors are sound and how they are
  truncated and normalized (`vector`, on bit patterns, see `bits`), how models
  are shared (`cache`), how the backend is reached and GPU layers are chosen
  (`backend`), how the context is set up (`context`), how an embedder is
  configured and loaded (`config`, `embedder`), when a slow call is reported
  (`heartbeat`, `interval`), and what errors say (`error`).
- `app/` is ordinary Rust around it: llama.cpp, threads, the environment, and
  floating-point arithmetic. It performs the actions that the library names and
  hands back what came of them.

Out of scope: model *acquisition* (which URL, which model, download and caching
policy). Callers pass the path of a file that is already there.

```rust
let config = GgufEmbedderConfig::new(768); // truncation dimension
let embedder = GgufEmbedder::new(gguf_path, config).await?;
let vectors = embedder.embed_batch(&texts).await?;
```

Proofs of what holds of the whole library, beyond single functions, are the
public proof functions whose names begin with `law_`.
