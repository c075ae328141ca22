//! Decisions around the llama.cpp backend.
//!
//! `llama_backend_init` may only run once per process, so every embedder, and
//! any other llama.cpp user in the same process, must share one backend. The
//! backend itself is stored outside this library; what to do on the way to it
//! is decided here.
use vstd::prelude::*;

use crate::error::GgufEmbedError;

verus! {

/// What has just happened on the way to the shared backend.
#[derive(Debug, Clone, Copy)]
pub enum BackendEvent {
    /// The shared backend was looked for, and was there or not.
    LookedUp { stored: bool },
    /// The backend was initialized, or could not be.
    Initialized { ok: bool },
    /// The log routing is set up and the new backend was offered for sharing.
    Stored,
    /// The shared backend was looked for a last time, and was there or not.
    LookedUpAgain { stored: bool },
}

/// What to do next on the way to the shared backend.
#[derive(Debug)]
pub enum BackendAction {
    /// Initialize the backend.
    Init,
    /// Route the logs of llama.cpp into tracing, once and only now that it is
    /// initialized; then offer the backend for sharing.
    RouteLogsAndStore,
    /// Look for the shared backend a last time: another thread may have stored one.
    LookUpAgain,
    /// Use the shared backend.
    Use,
    /// Give up.
    Fail(GgufEmbedError),
}

/// The action that follows `event`.
pub open spec fn backend_action(event: BackendEvent) -> BackendAction {
    match event {
        BackendEvent::LookedUp { stored: true } => BackendAction::Use,
        BackendEvent::LookedUp { stored: false } => BackendAction::Init,
        BackendEvent::Initialized { ok: true } => BackendAction::RouteLogsAndStore,
        BackendEvent::Initialized { ok: false } => BackendAction::LookUpAgain,
        BackendEvent::Stored => BackendAction::LookUpAgain,
        BackendEvent::LookedUpAgain { stored: true } => BackendAction::Use,
        BackendEvent::LookedUpAgain { stored: false } => {
            BackendAction::Fail(GgufEmbedError::BackendInit)
        },
    }
}

/// Decides the next step on the way to the shared backend: a stored one is
/// used, a missing one is initialized and stored, and it is an error if there
/// is none even then.
pub fn backend(event: BackendEvent) -> (r: BackendAction)
    ensures
        r == backend_action(event),
{
    match event {
        BackendEvent::LookedUp { stored } => if stored {
            BackendAction::Use
        } else {
            BackendAction::Init
        },
        BackendEvent::Initialized { ok } => if ok {
            BackendAction::RouteLogsAndStore
        } else {
            BackendAction::LookUpAgain
        },
        BackendEvent::Stored => BackendAction::LookUpAgain,
        BackendEvent::LookedUpAgain { stored } => if stored {
            BackendAction::Use
        } else {
            BackendAction::Fail(GgufEmbedError::BackendInit)
        },
    }
}

/// Whether a backend is stored after it was asked for, `stored` saying whether
/// one was before and `ok` whether an initialization would succeed.
pub open spec fn stored_after(stored: bool, ok: bool) -> bool {
    match backend_action(BackendEvent::LookedUp { stored }) {
        BackendAction::Init => backend_action(
            BackendEvent::Initialized { ok },
        ) is RouteLogsAndStore,
        _ => stored,
    }
}

/// How many of the requests in `oks` initialize the backend, each element
/// saying whether an initialization at that request would succeed.
pub open spec fn initializations(stored: bool, oks: Seq<bool>) -> nat
    decreases oks.len(),
{
    if oks.len() == 0 {
        0
    } else {
        let initializes = backend_action(BackendEvent::LookedUp { stored }) is Init && oks.first();
        let rest = initializations(stored_after(stored, oks.first()), oks.drop_first());
        if initializes {
            1 + rest
        } else {
            rest
        }
    }
}

/// However often the backend is asked for, it is initialized at most once, and
/// not at all where one is stored already.
pub proof fn law_backend_initialized_at_most_once(stored: bool, oks: Seq<bool>)
    ensures
        initializations(stored, oks) <= 1,
        stored ==> initializations(stored, oks) == 0,
    decreases oks.len(),
{
    if oks.len() > 0 {
        law_backend_initialized_at_most_once(stored_after(stored, oks.first()), oks.drop_first());
    }
}

/// A request succeeds exactly where a backend is stored by then; with an
/// initialization that works it always does.
pub proof fn law_backend_available_after_init(stored: bool, ok: bool)
    ensures
        stored_after(stored, ok) == (stored || ok),
        backend_action(BackendEvent::LookedUpAgain { stored: stored_after(stored, ok) }) is Use
            <==> stored || ok,
{
}

/// `c` is one of the digits `0` to `9`.
pub open spec fn is_digit(c: char) -> bool {
    '0' <= c <= '9'
}

/// The number that the decimal digits `s` write.
pub open spec fn digits_value(s: Seq<char>) -> int
    decreases s.len(),
{
    if s.len() == 0 {
        0
    } else {
        digits_value(s.drop_last()) * 10 + (s.last() as int - '0' as int)
    }
}

/// `s` is one or more decimal digits, and nothing else.
pub open spec fn all_digits(s: Seq<char>) -> bool {
    s.len() > 0 && forall|i: int| 0 <= i < s.len() ==> is_digit(#[trigger] s[i])
}

/// `s` without the plus sign that it may begin with.
pub open spec fn without_sign(s: Seq<char>) -> Seq<char> {
    if s.len() > 0 && s[0] == '+' {
        s.skip(1)
    } else {
        s
    }
}

/// The number that `s` writes: an optional plus sign, then one or more decimal
/// digits and nothing else, for a value that fits.
pub open spec fn parsed_u32(s: Seq<char>) -> Option<u32> {
    let digits = without_sign(s);
    if all_digits(digits) && digits_value(digits) <= u32::MAX {
        Some(digits_value(digits) as u32)
    } else {
        None
    }
}

/// `str::parse` of std for `u32`. Claimed of it, as its documentation has it:
/// it accepts an optional plus sign followed by decimal digits only, at least
/// one, gives the number they write, and refuses everything else, a number
/// over `u32::MAX` too.
#[verifier::external_body]
fn parse_u32(s: &str) -> (r: Option<u32>)
    ensures
        r == parsed_u32(s@),
{
    s.parse::<u32>().ok()
}

/// The layer count where no usable override is set: Apple Silicon is left at
/// the llama.cpp default, anything else is CPU-only.
pub open spec fn default_gpu_layers(aarch64: bool) -> Option<u32> {
    if aarch64 {
        None
    } else {
        Some(0)
    }
}

/// The GPU layer count to run with, where `value` is what the override
/// variable is set to, if it is set, and `aarch64` says whether this is a
/// 64-bit Arm machine.
///
/// `None` leaves the model parameters at the llama.cpp default (Metal offload
/// on macOS); `Some(n)` is an explicit layer count, and `Some(0)` forces
/// CPU-only. Absent an override: Apple Silicon has unified memory and full
/// Metal tensor support, so offload is left at the default. Intel Macs
/// commonly pair this backend with a discrete GPU where Metal support is
/// partial, so they default to CPU-only.
pub fn gpu_layers_override(value: Option<&str>, aarch64: bool) -> (r: Option<u32>)
    ensures
        match value {
            Some(raw) => match parsed_u32(raw@) {
                Some(n) => r == Some(n),
                None => r == default_gpu_layers(aarch64),
            },
            None => r == default_gpu_layers(aarch64),
        },
        value is None ==> r == if aarch64 {
            None::<u32>
        } else {
            Some(0)
        },
{
    if let Some(raw) = value {
        if let Some(n) = parse_u32(raw) {
            return Some(n);
        }
    }
    if aarch64 {
        None
    } else {
        Some(0)
    }
}

/// Whether an override is set to something that is not a layer count, and is
/// therefore ignored. The caller should warn of it.
pub fn gpu_layers_override_ignored(value: Option<&str>) -> (r: bool)
    ensures
        r == (value matches Some(raw) && parsed_u32(raw@) is None),
{
    match value {
        Some(raw) => parse_u32(raw).is_none(),
        None => false,
    }
}

/// The way to the backend: one that is stored is used, at the first look and
/// at the last, and an initialization is tried only where the first look finds
/// none. One that works is shared; after one that does not, as after sharing,
/// a last look decides, since another thread may have stored a backend. It is
/// an error only if that look finds none.
pub proof fn law_last_look_decides(event: BackendEvent)
    ensures
        match event {
            BackendEvent::LookedUp { stored } => {
                &&& stored ==> backend_action(event) is Use
                &&& !stored ==> backend_action(event) is Init
            },
            BackendEvent::Initialized { ok } => {
                &&& ok ==> backend_action(event) is RouteLogsAndStore
                &&& !ok ==> backend_action(event) is LookUpAgain
            },
            BackendEvent::Stored => backend_action(event) is LookUpAgain,
            BackendEvent::LookedUpAgain { stored } => {
                &&& stored ==> backend_action(event) is Use
                &&& !stored ==> backend_action(event) == BackendAction::Fail(
                    GgufEmbedError::BackendInit,
                )
            },
        },
{
}

/// Without a usable override a 64-bit Arm machine is left at the llama.cpp
/// default, and any other is CPU-only.
pub proof fn law_default_layers(aarch64: bool)
    ensures
        aarch64 ==> default_gpu_layers(aarch64) is None,
        !aarch64 ==> default_gpu_layers(aarch64) == Some(0u32),
{
}

proof fn lemma_decimal_value(n: nat)
    ensures
        digits_value(crate::error::decimal(n)) == n,
        all_digits(crate::error::decimal(n)),
    decreases n,
{
    let s = crate::error::decimal(n);
    if n < 10 {
        assert(s.drop_last() =~= Seq::empty());
        assert(digits_value(s.drop_last()) == 0);
    } else {
        lemma_decimal_value(n / 10);
        assert(s.drop_last() =~= crate::error::decimal(n / 10));
    }
}

/// Every number that fits is read from its decimal form, with or without a
/// plus sign before it, and one that does not fit is refused.
pub proof fn law_every_number_is_read(n: nat)
    ensures
        n <= u32::MAX ==> parsed_u32(crate::error::decimal(n)) == Some(n as u32),
        n > u32::MAX ==> parsed_u32(crate::error::decimal(n)) is None,
        parsed_u32(seq!['+'] + crate::error::decimal(n)) == parsed_u32(crate::error::decimal(n)),
{
    let s = crate::error::decimal(n);
    lemma_decimal_value(n);
    assert(is_digit(s[0]));
    assert((seq!['+'] + s).skip(1) =~= s);
}

proof fn lemma_leading_zero(s: Seq<char>)
    ensures
        digits_value(seq!['0'] + s) == digits_value(s),
    decreases s.len(),
{
    let t = seq!['0'] + s;
    if s.len() > 0 {
        assert(t.drop_last() =~= seq!['0'] + s.drop_last());
        lemma_leading_zero(s.drop_last());
    } else {
        assert(t.drop_last() =~= Seq::empty());
        assert(digits_value(t.drop_last()) == 0);
    }
}

/// A zero before digits changes nothing.
pub proof fn law_leading_zeros_are_ignored(s: Seq<char>)
    requires
        s.len() > 0,
        forall|i: int| 0 <= i < s.len() ==> '0' <= #[trigger] s[i] <= '9',
    ensures
        parsed_u32(seq!['0'] + s) == parsed_u32(s),
{
    let t = seq!['0'] + s;
    lemma_leading_zero(s);
    assert('0' <= s[0] <= '9');
    assert forall|i: int| 0 <= i < t.len() implies is_digit(#[trigger] t[i]) by {
        if i > 0 {
            assert(t[i] == s[i - 1]);
        }
    }
    assert(all_digits(s));
    assert(all_digits(t));
}

/// What is not digits is refused: nothing at all, a plus sign alone, and
/// anything with another character than a digit behind its first, or a first
/// one that is neither a digit nor a plus sign.
pub proof fn law_only_digits_are_read(s: Seq<char>, i: int)
    ensures
        s.len() == 0 ==> parsed_u32(s) is None,
        s.len() == 1 && s[0] == '+' ==> parsed_u32(s) is None,
        0 <= i < s.len() && !('0' <= s[i] <= '9') && (i > 0 || s[0] != '+') ==> parsed_u32(s) is None,
{
    let digits = without_sign(s);
    if 0 <= i < s.len() && !('0' <= s[i] <= '9') && (i > 0 || s[0] != '+') {
        let k = i - (s.len() - digits.len());
        assert(digits[k] == s[i]);
        assert(!is_digit(digits[k]));
    }
}

} // verus!
