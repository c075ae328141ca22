use gguf_embed::run::{Batch, EmbedAction, EmbedEvent, EmbedRun};
use gguf_embed::vector::Embedding;
use gguf_embed::{EmbeddingError, GgufEmbedError};

/// A stand-in for model and context: text `i` has `counts[i]` tokens, all equal
/// to `i`, and a sequence of tokens `t` pools to the vector `(t + 1, 0, 7)`.
struct Model {
    counts: Vec<usize>,
    /// The event to report instead of the one with this number, counted from zero.
    fault: Option<(usize, EmbedEvent)>,
}

struct Trace {
    log: Vec<String>,
    batches: Vec<Batch>,
    result: Result<Vec<Embedding>, GgufEmbedError>,
}

fn drive(mut run: EmbedRun, mut model: Model) -> Trace {
    let mut log = Vec::new();
    let mut batches: Vec<Batch> = Vec::new();
    let mut event = EmbedEvent::Start;
    let mut number = 0;
    loop {
        if model.fault.as_ref().is_some_and(|(at, _)| *at == number) {
            if let Some((_, fault)) = model.fault.take() {
                event = fault;
            }
        }
        number += 1;
        assert!(run.expects(&event), "{event:?} was not expected");
        event = match run.step(event) {
            EmbedAction::LockContext => {
                log.push("lock".to_string());
                EmbedEvent::Locked
            }
            EmbedAction::Tokenize { index } => {
                log.push(format!("tokenize {index}"));
                EmbedEvent::Tokenized(vec![index as i32; model.counts[index]])
            }
            EmbedAction::BuildBatch(batch) => {
                log.push(format!("build {}", batch.sequences.len()));
                batches.push(batch);
                EmbedEvent::BatchBuilt
            }
            EmbedAction::ClearKvCache => {
                log.push("clear".to_string());
                EmbedEvent::KvCacheCleared
            }
            EmbedAction::Encode => {
                log.push("encode".to_string());
                EmbedEvent::Encoded
            }
            EmbedAction::ReadPooled { seq_id } => {
                log.push(format!("read {seq_id}"));
                let sequences = &batches[batches.len() - 1].sequences;
                let sequence = &sequences[seq_id as usize];
                assert_eq!(sequence.seq_id, seq_id);
                let x = sequence.tokens[0] as f32 + 1.0;
                EmbedEvent::Pooled {
                    raw: vec![x.to_bits(), 0.0f32.to_bits(), 7.0f32.to_bits()],
                    norm: x.to_bits(),
                }
            }
            EmbedAction::Finish(vectors) => {
                return Trace { log, batches, result: Ok(vectors) };
            }
            EmbedAction::Fail(e) => return Trace { log, batches, result: Err(e) },
        };
    }
}

fn embed(counts: &[usize], n_ctx: usize, max_seqs: usize) -> Trace {
    let run = EmbedRun::new(counts.len(), 2, n_ctx, max_seqs);
    drive(run, Model { counts: counts.to_vec(), fault: None })
}

fn failing(counts: &[usize], at: usize, fault: EmbedEvent) -> GgufEmbedError {
    let run = EmbedRun::new(counts.len(), 2, 10, 8);
    match drive(run, Model { counts: counts.to_vec(), fault: Some((at, fault)) }).result {
        Ok(vectors) => panic!("succeeded with {vectors:?}"),
        Err(e) => e,
    }
}

/// What the vector of text `i` is: its first two entries, to be divided by their norm.
fn expected(i: usize) -> (Vec<u32>, Option<u32>) {
    let x = i as f32 + 1.0;
    (vec![x.to_bits(), 0], Some(x.to_bits()))
}

fn parts(vectors: Vec<Embedding>) -> Vec<(Vec<u32>, Option<u32>)> {
    vectors.into_iter().map(|e| (e.values, e.divisor)).collect()
}

#[test]
fn a_call_goes_through_its_steps_in_order() {
    let trace = embed(&[2, 3, 8], 10, 8);
    let steps = [
        "lock", "tokenize 0", "tokenize 1", "tokenize 2", "build 2", "clear", "encode", "read 0",
        "read 1", "build 1", "clear", "encode", "read 0",
    ];
    assert_eq!(trace.log, steps);
    let vectors = trace.result.expect("the call succeeds");
    assert_eq!(parts(vectors), vec![expected(0), expected(1), expected(2)]);
}

#[test]
fn texts_without_tokens_get_the_zero_vector_and_no_batch() {
    let trace = embed(&[0, 4, 0, 5, 0], 10, 8);
    assert_eq!(trace.batches.len(), 1);
    assert_eq!(trace.batches[0].sequences.len(), 2);
    let zero = (vec![0, 0], None);
    assert_eq!(
        parts(trace.result.expect("the call succeeds")),
        vec![zero.clone(), expected(1), zero.clone(), expected(3), zero]
    );
}

#[test]
fn a_call_on_texts_without_tokens_encodes_nothing() {
    let trace = embed(&[0, 0], 10, 8);
    assert_eq!(trace.log, ["lock", "tokenize 0", "tokenize 1"]);
    assert_eq!(parts(trace.result.expect("the call succeeds")), vec![(vec![0, 0], None); 2]);
}

#[test]
fn a_call_on_no_texts_returns_nothing() {
    let trace = embed(&[], 10, 8);
    assert_eq!(trace.log, ["lock"]);
    assert_eq!(trace.result.expect("the call succeeds").len(), 0);
}

#[test]
fn long_texts_are_cut_to_the_context() {
    let trace = embed(&[25, 3], 10, 8);
    let sizes: Vec<usize> = trace.batches.iter().map(|b| b.total_tokens).collect();
    assert_eq!(sizes, vec![10, 3]);
    assert_eq!(trace.batches[0].sequences[0].tokens, vec![0; 10]);
    assert_eq!(
        parts(trace.result.expect("the call succeeds")),
        vec![expected(0), expected(1)]
    );
}

#[test]
fn without_a_context_window_every_text_is_empty() {
    let trace = embed(&[3, 4], 0, 8);
    assert_eq!(trace.batches.len(), 0);
    assert_eq!(parts(trace.result.expect("the call succeeds")), vec![(vec![0, 0], None); 2]);
}

#[test]
fn batches_fit_the_context_and_their_own_space() {
    let counts = [4, 4, 4, 1, 1, 1, 10, 2];
    let trace = embed(&counts, 10, 3);
    let mut embedded = 0;
    for batch in &trace.batches {
        let held: usize = batch.sequences.iter().map(|s| s.tokens.len()).sum();
        assert_eq!(batch.total_tokens, held);
        assert!(held <= 10);
        assert!(!batch.sequences.is_empty() && batch.sequences.len() <= 3);
        assert_eq!(batch.n_seqs as usize, batch.sequences.len());
        for (s, sequence) in batch.sequences.iter().enumerate() {
            assert_eq!(sequence.seq_id as usize, s);
            assert!(sequence.logits_all);
            assert_eq!(sequence.tokens, vec![embedded as i32; counts[embedded]]);
            embedded += 1;
        }
    }
    assert_eq!(embedded, counts.len());
}

#[test]
fn the_cache_is_cleared_before_every_encode() {
    let trace = embed(&[6, 6, 6], 10, 8);
    let encodes = trace.log.iter().filter(|l| *l == "encode").count();
    assert_eq!(encodes, 3);
    for (i, entry) in trace.log.iter().enumerate() {
        if entry == "encode" {
            assert_eq!(trace.log[i - 1], "clear");
        }
    }
}

#[test]
fn a_batch_gives_each_text_what_it_gets_alone() {
    let counts = [3, 0, 9, 2];
    let together = parts(embed(&counts, 10, 8).result.expect("the call succeeds"));
    for (i, vector) in together.iter().enumerate() {
        let mut alone = vec![0; counts.len()];
        alone[i] = counts[i];
        let own = parts(embed(&alone, 10, 8).result.expect("the call succeeds"));
        assert_eq!(&own[i], vector);
    }
}

#[test]
fn a_sequence_limit_of_zero_starts_with_an_empty_batch() {
    let trace = embed(&[2, 3], 10, 0);
    let sizes: Vec<usize> = trace.batches.iter().map(|b| b.sequences.len()).collect();
    assert_eq!(sizes, vec![0, 1, 1]);
    assert_eq!(trace.batches[0].total_tokens, 0);
    assert_eq!(
        parts(trace.result.expect("the call succeeds")),
        vec![expected(0), expected(1)]
    );
}

#[test]
fn every_failure_ends_the_call_with_its_error() {
    let reason = || "why".to_string();
    let e = failing(&[1], 1, EmbedEvent::LockPoisoned);
    assert!(matches!(e, GgufEmbedError::LockPoisoned));
    let e = failing(&[1, 2], 3, EmbedEvent::TokenizeFailed(reason()));
    assert!(matches!(e, GgufEmbedError::Tokenize(r) if r == "why"));
    let e = failing(&[1], 3, EmbedEvent::BatchFailed(reason()));
    assert!(matches!(e, GgufEmbedError::BatchConstruction(r) if r == "why"));
    let e = failing(&[1], 5, EmbedEvent::EncodeFailed(reason()));
    assert!(matches!(e, GgufEmbedError::Encode(r) if r == "why"));
    let e = failing(&[1], 6, EmbedEvent::ReadFailed(reason()));
    assert!(matches!(e, GgufEmbedError::ReadEmbedding(r) if r == "why"));
}

#[test]
fn an_unsound_vector_ends_the_call() {
    let pooled = |raw: Vec<f32>, norm: f32| EmbedEvent::Pooled {
        raw: raw.iter().map(|x| x.to_bits()).collect(),
        norm: norm.to_bits(),
    };
    let e = failing(&[1], 6, pooled(vec![1.0], 1.0));
    assert!(matches!(
        e,
        GgufEmbedError::Validation(EmbeddingError::DimensionMismatch { got: 1, expected: 2 })
    ));
    let e = failing(&[1], 6, pooled(vec![1.0, 0.0, f32::NAN], 1.0));
    assert!(matches!(e, GgufEmbedError::Validation(EmbeddingError::NonFiniteVector)));
    let e = failing(&[1], 6, pooled(vec![1e-7, 0.0, 1.0], 1e-7));
    assert!(matches!(e, GgufEmbedError::Validation(EmbeddingError::DegenerateVector)));
}

#[test]
fn a_run_takes_only_answers_to_what_it_asked() {
    let mut run = EmbedRun::new(1, 2, 10, 8);
    assert!(!run.expects(&EmbedEvent::Locked));
    assert!(matches!(run.step(EmbedEvent::Start), EmbedAction::LockContext));
    assert!(!run.expects(&EmbedEvent::Start));
    assert!(!run.expects(&EmbedEvent::Encoded));
    assert!(run.expects(&EmbedEvent::LockPoisoned));
    assert!(matches!(
        run.step(EmbedEvent::LockPoisoned),
        EmbedAction::Fail(GgufEmbedError::LockPoisoned)
    ));
    assert!(!run.expects(&EmbedEvent::Locked));
}

#[test]
fn every_text_gets_the_vector_read_for_its_own_tokens() {
    let counts = [6, 0, 6, 3, 1, 0, 30, 2];
    let trace = embed(&counts, 10, 2);
    let sizes: Vec<usize> = trace.batches.iter().map(|b| b.sequences.len()).collect();
    assert_eq!(sizes, vec![1, 2, 1, 1, 1]);
    let vectors = parts(trace.result.expect("the call succeeds"));
    for (i, vector) in vectors.into_iter().enumerate() {
        if counts[i] == 0 {
            assert_eq!(vector, (vec![0, 0], None));
        } else {
            assert_eq!(vector, expected(i));
        }
    }
}

#[test]
fn repeated_calls_on_the_same_texts_agree() {
    let counts = [6, 0, 6, 3, 30];
    let first = parts(embed(&counts, 10, 2).result.expect("the call succeeds"));
    let between = embed(&[1, 9], 10, 2);
    assert!(between.result.is_ok());
    let second = parts(embed(&counts, 10, 2).result.expect("the call succeeds"));
    assert_eq!(first, second);
    let wider = parts(embed(&counts, 10, 8).result.expect("the call succeeds"));
    assert_eq!(first, wider);
}
