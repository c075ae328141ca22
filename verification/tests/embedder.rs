use gguf_embed::context::PoolingType;
use gguf_embed::embedder::{load_task_result, BatchStart, LoadAction, LoadEvent};
use gguf_embed::heartbeat::{Heartbeat, HeartbeatAction, HeartbeatEvent};
use gguf_embed::interval::Interval;
use gguf_embed::run::{EmbedAction, EmbedEvent};
use gguf_embed::vector::Embedding;
use gguf_embed::{GgufEmbedError, GgufEmbedder, GgufEmbedderConfig};

#[test]
fn ctx_params_sets_n_seq_max_for_batched_embedding() {
    assert_eq!(GgufEmbedder::ctx_params(2048, 8, None).n_seq_max, 8);
}

#[test]
fn ctx_params_sets_kv_unified_so_sequences_share_the_full_context() {
    assert!(GgufEmbedder::ctx_params(2048, 8, None).kv_unified);
}

#[test]
fn ctx_params_pins_the_batch_sizes_to_the_context() {
    let params = GgufEmbedder::ctx_params(2048, 8, Some(6));
    assert_eq!(params.n_ctx, Some(2048));
    assert_eq!(params.n_batch, 2048);
    assert_eq!(params.n_ubatch, 2048);
    assert_eq!(params.n_threads, 6);
    assert_eq!(params.n_threads_batch, 6);
    assert!(params.embeddings);
    assert_eq!(params.pooling_type, PoolingType::Mean);
}

#[test]
fn ctx_params_without_a_window_or_a_thread_count() {
    let params = GgufEmbedder::ctx_params(0, -1, None);
    assert_eq!(params.n_ctx, None);
    assert_eq!(params.n_threads, 4);
    assert_eq!(params.n_seq_max, u32::MAX);
}

#[test]
fn config_defaults() {
    let config = GgufEmbedderConfig::new(768);
    assert_eq!(config.dimension, 768);
    assert_eq!(config.gpu_layers, None);
    assert_eq!(config.n_ctx, 2048);
    assert_eq!(config.max_seqs, 8);
    assert_eq!(config.heartbeat_interval.as_secs(), 15);
    assert_eq!(config.heartbeat_interval.subsec_nanos(), 0);
}

#[test]
fn config_builders_change_one_field_each() {
    let config = GgufEmbedderConfig::new(768)
        .with_gpu_layers(Some(3))
        .with_n_ctx(512)
        .with_max_seqs(2);
    assert_eq!(config.dimension, 768);
    assert_eq!(config.gpu_layers, Some(3));
    assert_eq!(config.n_ctx, 512);
    assert_eq!(config.max_seqs, 2);
    assert_eq!(config.heartbeat_interval.as_secs(), 15);
    assert_eq!(config.with_gpu_layers(None).gpu_layers, None);
}

#[test]
fn loading_goes_from_model_to_backend_to_context() {
    let config = GgufEmbedderConfig::new(128).with_gpu_layers(Some(0)).with_n_ctx(256);
    let step = |event| GgufEmbedder::load_blocking(&config, Some(2), event);
    assert!(matches!(
        step(LoadEvent::Start),
        LoadAction::AcquireModel { gpu_layers: Some(0) }
    ));
    assert!(matches!(step(LoadEvent::ModelReady), LoadAction::AcquireBackend));
    match step(LoadEvent::BackendReady) {
        LoadAction::CreateContext(params) => {
            assert_eq!(params.n_ctx, Some(256));
            assert_eq!(params.n_threads, 2);
            assert_eq!(params.n_seq_max, 8);
        }
        other => panic!("unexpected {other:?}"),
    }
    match step(LoadEvent::ContextReady) {
        LoadAction::Finish(embedder) => assert_eq!(embedder.dimension(), 128),
        other => panic!("unexpected {other:?}"),
    }
}

#[test]
fn the_first_failure_ends_loading() {
    let config = GgufEmbedderConfig::new(128);
    let step = |event| GgufEmbedder::load_blocking(&config, None, event);
    assert!(matches!(
        step(LoadEvent::ModelFailed(GgufEmbedError::LockPoisoned)),
        LoadAction::Fail(GgufEmbedError::LockPoisoned)
    ));
    assert!(matches!(
        step(LoadEvent::BackendFailed(GgufEmbedError::BackendInit)),
        LoadAction::Fail(GgufEmbedError::BackendInit)
    ));
    assert!(matches!(
        step(LoadEvent::ContextFailed("null return".to_string())),
        LoadAction::Fail(GgufEmbedError::ContextCreation(reason)) if reason == "null return"
    ));
}

#[test]
fn a_load_task_that_panicked_is_an_error() {
    assert!(matches!(load_task_result::<u8>(Ok(Ok(5))), Ok(5)));
    assert!(matches!(
        load_task_result::<u8>(Ok(Err(GgufEmbedError::BackendInit))),
        Err(GgufEmbedError::BackendInit)
    ));
    assert!(matches!(
        load_task_result::<u8>(Err("boom".to_string())),
        Err(GgufEmbedError::LoadTaskPanicked(reason)) if reason == "boom"
    ));
}

fn vector(x: u32) -> Embedding {
    Embedding { values: vec![x], divisor: None }
}

#[test]
fn embedding_one_text_hands_out_its_vector() {
    let one = GgufEmbedder::embed(Ok(vec![vector(7)])).expect("there is a vector");
    assert_eq!(one.values, vec![7]);
    assert!(matches!(GgufEmbedder::embed(Ok(Vec::new())), Err(GgufEmbedError::EmptyResult)));
    assert!(matches!(
        GgufEmbedder::embed(Err(GgufEmbedError::LockPoisoned)),
        Err(GgufEmbedError::LockPoisoned)
    ));
}

#[test]
fn a_call_on_one_text_has_one_vector() {
    let embedder = GgufEmbedder::new(&GgufEmbedderConfig::new(2).with_n_ctx(16));
    let mut run = embedder.embed_blocking(1).run;
    run.step(EmbedEvent::Start);
    run.step(EmbedEvent::Locked);
    run.step(EmbedEvent::Tokenized(vec![1, 2]));
    run.step(EmbedEvent::BatchBuilt);
    run.step(EmbedEvent::KvCacheCleared);
    run.step(EmbedEvent::Encoded);
    let raw = vec![3.0f32.to_bits(), 4.0f32.to_bits()];
    match run.step(EmbedEvent::Pooled { raw, norm: 5.0f32.to_bits() }) {
        EmbedAction::Finish(vectors) => {
            let own = GgufEmbedder::embed(Ok(vectors)).expect("there is a vector");
            assert_eq!(own.values, vec![3.0f32.to_bits(), 4.0f32.to_bits()]);
            assert_eq!(own.divisor, Some(5.0f32.to_bits()));
        }
        other => panic!("unexpected {other:?}"),
    }
}

#[test]
fn a_batch_without_texts_is_done_at_once() {
    let embedder = GgufEmbedder::new(&GgufEmbedderConfig::new(4));
    match embedder.embed_batch(0) {
        BatchStart::Done(vectors) => assert!(vectors.is_empty()),
        BatchStart::Run(_) => panic!("nothing to run"),
    }
    match embedder.embed_batch(2) {
        BatchStart::Done(_) => panic!("there are texts to embed"),
        BatchStart::Run(call) => {
            assert!(call.run.expects(&EmbedEvent::Start));
            assert_eq!(call.heartbeat.interval().as_secs(), 15);
        }
    }
}

#[test]
fn an_embedder_takes_its_limits_from_the_configuration() {
    let config = GgufEmbedderConfig::new(3).with_n_ctx(4).with_max_seqs(1);
    let embedder = GgufEmbedder::new(&config);
    assert_eq!(embedder.dimension(), 3);
    let mut run = embedder.embed_blocking(2).run;
    run.step(EmbedEvent::Start);
    run.step(EmbedEvent::Locked);
    run.step(EmbedEvent::Tokenized(vec![1; 9]));
    match run.step(EmbedEvent::Tokenized(vec![2])) {
        EmbedAction::BuildBatch(batch) => {
            assert_eq!(batch.total_tokens, 4);
            assert_eq!(batch.n_seqs, 1);
        }
        other => panic!("unexpected {other:?}"),
    }
}

#[test]
fn the_heartbeat_reports_whole_intervals() {
    let interval = Interval::from_parts(1, 700_000_000).expect("less than a second beyond");
    let mut heartbeat = Heartbeat::new(3, interval);
    for expected_ms in [1_700, 3_400, 5_100] {
        assert!(heartbeat.can_tick());
        match heartbeat.on_event(HeartbeatEvent::TimedOut) {
            HeartbeatAction::Warn { n_texts, elapsed_ms } => {
                assert_eq!(n_texts, 3);
                assert_eq!(elapsed_ms, expected_ms);
            }
            HeartbeatAction::Stop => panic!("the call still runs"),
        }
    }
    assert!(matches!(heartbeat.on_event(HeartbeatEvent::Done), HeartbeatAction::Stop));
    assert!(matches!(heartbeat.on_event(HeartbeatEvent::Disconnected), HeartbeatAction::Stop));
}

#[test]
fn a_heartbeat_does_not_outgrow_its_clock() {
    let interval = Interval::from_parts(u64::MAX, 999_999_999).expect("less than a second beyond");
    let mut heartbeat = Heartbeat::new(1, interval);
    assert!(heartbeat.can_tick());
    match heartbeat.on_event(HeartbeatEvent::TimedOut) {
        HeartbeatAction::Warn { elapsed_ms, .. } => {
            let millis: u128 = u64::MAX as u128 * 1_000 + 999;
            assert_eq!(elapsed_ms, millis as u64);
        }
        HeartbeatAction::Stop => panic!("the call still runs"),
    }
    assert!(!heartbeat.can_tick());
}

#[test]
fn intervals_carry_nanoseconds_into_seconds() {
    assert!(Interval::from_parts(1, 1_000_000_000).is_none());
    let a = Interval::from_parts(1, 600_000_000).expect("less than a second beyond");
    let b = Interval::from_parts(2, 500_000_000).expect("less than a second beyond");
    let sum = a.checked_add(&b).expect("short enough");
    assert_eq!((sum.as_secs(), sum.subsec_nanos()), (4, 100_000_000));
    assert_eq!(sum.as_millis(), 4_100);
    let longest = Interval::from_parts(u64::MAX, 999_999_999).expect("less than a second beyond");
    assert!(longest.checked_add(&Interval::from_secs(0)).is_some());
    let tick = Interval::from_parts(0, 1).expect("less than a second beyond");
    assert!(longest.checked_add(&tick).is_none());
}
