use gguf_embed::backend::{gpu_layers_override_ignored, BackendAction, BackendEvent};
use gguf_embed::{backend, gpu_layers_override, GgufEmbedError};

#[test]
fn env_override_wins_per_variable() {
    for aarch64 in [true, false] {
        let default = if aarch64 { None } else { Some(0) };
        assert_eq!(gpu_layers_override(Some("0"), aarch64), Some(0));
        assert_eq!(
            gpu_layers_override(Some("7"), aarch64),
            Some(7),
            "the two knobs are read independently"
        );
        assert_eq!(
            gpu_layers_override(None, aarch64),
            default,
            "unset falls back to the architecture default",
        );
        assert_eq!(
            gpu_layers_override(Some("not-a-number"), aarch64),
            default,
            "unparseable falls back to the architecture default",
        );
    }
}

#[test]
fn layer_counts_are_plain_decimal_numbers() {
    assert_eq!(gpu_layers_override(Some("+12"), true), Some(12));
    assert_eq!(gpu_layers_override(Some("007"), true), Some(7));
    assert_eq!(gpu_layers_override(Some("4294967295"), true), Some(u32::MAX));
    for refused in ["", "+", "-", "-1", " 7", "7 ", "1_000", "4294967296", "0x10", "++1", "7.0", "\u{0663}"] {
        assert_eq!(gpu_layers_override(Some(refused), true), None, "{refused:?}");
        assert_eq!(gpu_layers_override(Some(refused), false), Some(0), "{refused:?}");
        assert!(gpu_layers_override_ignored(Some(refused)));
    }
}

#[test]
fn only_an_unusable_override_is_reported() {
    assert!(!gpu_layers_override_ignored(None));
    assert!(!gpu_layers_override_ignored(Some("3")));
    assert!(gpu_layers_override_ignored(Some("three")));
}

#[test]
fn a_stored_backend_is_used_without_initializing() {
    assert!(matches!(backend(BackendEvent::LookedUp { stored: true }), BackendAction::Use));
}

#[test]
fn a_missing_backend_is_initialized_and_stored() {
    assert!(matches!(backend(BackendEvent::LookedUp { stored: false }), BackendAction::Init));
    assert!(matches!(
        backend(BackendEvent::Initialized { ok: true }),
        BackendAction::RouteLogsAndStore
    ));
    assert!(matches!(backend(BackendEvent::Stored), BackendAction::LookUpAgain));
    assert!(matches!(backend(BackendEvent::LookedUpAgain { stored: true }), BackendAction::Use));
}

#[test]
fn a_failed_initialization_is_an_error_unless_another_thread_won() {
    assert!(matches!(
        backend(BackendEvent::Initialized { ok: false }),
        BackendAction::LookUpAgain
    ));
    assert!(matches!(
        backend(BackendEvent::LookedUpAgain { stored: false }),
        BackendAction::Fail(GgufEmbedError::BackendInit)
    ));
}

#[test]
fn repeated_requests_initialize_the_backend_once() {
    let mut stored = false;
    let mut initializations = 0;
    for would_succeed in [false, true, true, false, true] {
        if let BackendAction::Init = backend(BackendEvent::LookedUp { stored }) {
            if let BackendAction::RouteLogsAndStore =
                backend(BackendEvent::Initialized { ok: would_succeed })
            {
                initializations += 1;
                stored = true;
            }
        }
    }
    assert!(stored);
    assert_eq!(initializations, 1);
}
