use std::path::PathBuf;

use gguf_embed::{EmbeddingError, GgufEmbedError};

#[test]
fn vector_errors_in_words() {
    assert_eq!(
        EmbeddingError::DimensionMismatch { got: 64, expected: 1024 }.message(),
        "embedding dimension mismatch: got 64 elements, need at least 1024"
    );
    assert_eq!(
        EmbeddingError::DimensionMismatch { got: 0, expected: usize::MAX }.message(),
        format!("embedding dimension mismatch: got 0 elements, need at least {}", usize::MAX)
    );
    assert_eq!(
        EmbeddingError::NonFiniteVector.message(),
        "embedding contains NaN or infinite values"
    );
    assert_eq!(
        EmbeddingError::DegenerateVector.message(),
        "embedding norm is below epsilon (degenerate/near-zero vector)"
    );
}

#[test]
fn embedder_errors_in_words() {
    let why = || "why".to_string();
    let cases = [
        (GgufEmbedError::BackendInit, "llama.cpp backend failed to initialize"),
        (
            GgufEmbedError::ModelLoad { path: PathBuf::from("/m/a \"b\".gguf"), reason: why() },
            "failed to load GGUF model at \"/m/a \\\"b\\\".gguf\": why",
        ),
        (GgufEmbedError::ContextCreation(why()), "failed to create llama.cpp context: why"),
        (GgufEmbedError::LoadTaskPanicked(why()), "embedder load task panicked: why"),
        (GgufEmbedError::LockPoisoned, "embedder lock poisoned"),
        (GgufEmbedError::Tokenize(why()), "tokenize failed: why"),
        (GgufEmbedError::BatchConstruction(why()), "batch construction failed: why"),
        (GgufEmbedError::Encode(why()), "encode failed: why"),
        (GgufEmbedError::ReadEmbedding(why()), "failed to read pooled embedding: why"),
        (
            GgufEmbedError::Validation(EmbeddingError::NonFiniteVector),
            "embedding contains NaN or infinite values",
        ),
        (GgufEmbedError::EmptyResult, "embed() returned no output for non-empty input"),
    ];
    for (error, words) in cases {
        assert_eq!(error.message(), words);
    }
}

#[test]
fn the_path_can_be_shown_in_another_form() {
    let error = GgufEmbedError::ModelLoad {
        path: PathBuf::from("a.gguf"),
        reason: "missing".to_string(),
    };
    assert_eq!(
        error.message_with_path("a.gguf"),
        "failed to load GGUF model at a.gguf: missing"
    );
}

#[test]
fn a_vector_error_becomes_a_validation_error() {
    let e = GgufEmbedError::from(EmbeddingError::DegenerateVector);
    assert!(matches!(e, GgufEmbedError::Validation(EmbeddingError::DegenerateVector)));
}
