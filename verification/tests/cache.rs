use std::path::PathBuf;

use gguf_embed::cache::{ModelAction, ModelCache, ModelEvent};
use gguf_embed::GgufEmbedError;

fn key(path: &str) -> Vec<u8> {
    path.as_bytes().to_vec()
}

/// Asks for the model at `path`; returns its handle and whether it was loaded just now.
fn request(cache: &mut ModelCache<u32>, path: &str, would_be: u32) -> (u32, bool) {
    let k = key(path);
    match cache.get_or_load_model(&k, None, ModelEvent::Requested) {
        ModelAction::Use(model) => (model, false),
        ModelAction::AcquireBackend => {
            assert!(matches!(
                cache.get_or_load_model(&k, None, ModelEvent::BackendReady),
                ModelAction::Load { n_gpu_layers: None }
            ));
            match cache.get_or_load_model(&k, None, ModelEvent::Loaded(would_be)) {
                ModelAction::Use(model) => (model, true),
                other => panic!("unexpected {other:?}"),
            }
        }
        other => panic!("unexpected {other:?}"),
    }
}

#[test]
fn each_path_is_loaded_once_and_shared() {
    let mut cache: ModelCache<u32> = ModelCache::new();
    assert_eq!(request(&mut cache, "/m/a.gguf", 1), (1, true));
    assert_eq!(request(&mut cache, "/m/b.gguf", 2), (2, true));
    assert_eq!(request(&mut cache, "/m/a.gguf", 3), (1, false));
    assert_eq!(request(&mut cache, "/m/b.gguf", 4), (2, false));
    assert_eq!(request(&mut cache, "/m/a", 5), (5, true));
    assert_eq!(cache.get(&key("/m/a.gguf")), Some(1));
    assert_eq!(cache.get(&key("/m/c.gguf")), None);
}

#[test]
fn a_cached_model_is_used_whatever_the_layer_count() {
    let mut cache: ModelCache<u32> = ModelCache::new();
    request(&mut cache, "a", 9);
    let k = key("a");
    assert!(matches!(
        cache.get_or_load_model(&k, Some(12), ModelEvent::Requested),
        ModelAction::Use(9)
    ));
}

#[test]
fn the_layer_count_reaches_the_load() {
    let mut cache: ModelCache<u32> = ModelCache::new();
    let k = key("a");
    assert!(matches!(
        cache.get_or_load_model(&k, Some(12), ModelEvent::BackendReady),
        ModelAction::Load { n_gpu_layers: Some(12) }
    ));
}

#[test]
fn a_failed_load_is_reported_and_not_kept() {
    let mut cache: ModelCache<u32> = ModelCache::new();
    let k = key("missing.gguf");
    let event = ModelEvent::LoadFailed {
        path: PathBuf::from("missing.gguf"),
        reason: "null result".to_string(),
    };
    match cache.get_or_load_model(&k, None, event) {
        ModelAction::Fail(GgufEmbedError::ModelLoad { path, reason }) => {
            assert_eq!(path, PathBuf::from("missing.gguf"));
            assert_eq!(reason, "null result");
        }
        other => panic!("unexpected {other:?}"),
    }
    assert_eq!(cache.get(&k), None);
    assert_eq!(request(&mut cache, "missing.gguf", 1), (1, true));
}

#[test]
fn without_a_backend_no_model_is_loaded() {
    let mut cache: ModelCache<u32> = ModelCache::new();
    let k = key("a");
    assert!(matches!(
        cache.get_or_load_model(&k, None, ModelEvent::BackendFailed(GgufEmbedError::BackendInit)),
        ModelAction::Fail(GgufEmbedError::BackendInit)
    ));
    assert_eq!(cache.get(&k), None);
}

#[test]
fn a_poisoned_lock_is_reported_and_changes_nothing() {
    let mut cache: ModelCache<u32> = ModelCache::new();
    request(&mut cache, "a", 1);
    let k = key("a");
    assert!(matches!(
        cache.get_or_load_model(&k, None, ModelEvent::LockPoisoned),
        ModelAction::Fail(GgufEmbedError::LockPoisoned)
    ));
    assert_eq!(cache.get(&k), Some(1));
}
