//! Validation, truncation and normalisation of pooled embedding vectors.
//!
//! A raw vector comes as the bit patterns of its entries (see [`crate::bits`]),
//! together with the L2 norm of its first `dim` entries.
use vstd::prelude::*;

use crate::bits::{is_finite, is_less};
use crate::error::EmbeddingError;

verus! {

/// The bit pattern of `1e-6`: a raw norm below it is degenerate.
pub const DEGENERATE_NORM: u32 = 0x3586_37bd;

/// The bit pattern of `1e-9`: a norm below it is not divided by.
pub const NEGLIGIBLE_NORM: u32 = 0x3089_705f;

/// The bit pattern of `0.0`.
pub const ZERO: u32 = 0;

/// A vector as it leaves the library: entry `i` is `values[i]` divided by the
/// divisor where there is one, and `values[i]` itself where there is none.
#[derive(Debug)]
pub struct Embedding {
    /// The bit patterns of the entries before division.
    pub values: Vec<u32>,
    /// The bit pattern of what every entry is divided by.
    pub divisor: Option<u32>,
}

/// The contents of an [`Embedding`].
#[verifier::ext_equal]
pub struct EmbeddingView {
    pub values: Seq<u32>,
    pub divisor: Option<u32>,
}

impl View for Embedding {
    type V = EmbeddingView;

    open spec fn view(&self) -> EmbeddingView {
        EmbeddingView { values: self.values@, divisor: self.divisor }
    }
}

/// `len` zeros.
pub open spec fn zeros(len: nat) -> Seq<u32> {
    Seq::new(len, |i: int| ZERO)
}

/// The zero vector of dimension `dim`.
pub open spec fn zero_embedding(dim: nat) -> EmbeddingView {
    EmbeddingView { values: zeros(dim), divisor: None }
}

/// The first `dim` entries of `v`, or all of them if there are fewer.
pub open spec fn truncated(v: Seq<u32>, dim: nat) -> Seq<u32> {
    if v.len() < dim {
        v
    } else {
        v.take(dim as int)
    }
}

/// What is wrong with a raw vector, if anything, in the order in which it is looked for.
pub open spec fn raw_vector_error(raw: Seq<u32>, dim: usize, norm: u32) -> Option<EmbeddingError> {
    if raw.len() < dim {
        Some(EmbeddingError::DimensionMismatch { got: raw.len() as usize, expected: dim })
    } else if exists|i: int| 0 <= i < raw.len() && !crate::bits::finite(#[trigger] raw[i]) {
        Some(EmbeddingError::NonFiniteVector)
    } else if crate::bits::less(norm, DEGENERATE_NORM) {
        Some(EmbeddingError::DegenerateVector)
    } else {
        None
    }
}

/// The first `dim` entries of `v`, each to be divided by `norm`; zeros if the norm is negligible.
pub open spec fn normalized(v: Seq<u32>, dim: nat, norm: u32) -> EmbeddingView {
    if crate::bits::less(norm, NEGLIGIBLE_NORM) {
        EmbeddingView { values: zeros(truncated(v, dim).len()), divisor: None }
    } else {
        EmbeddingView { values: truncated(v, dim), divisor: Some(norm) }
    }
}

/// `dim` zeros, as a vector that is not divided by anything.
pub fn zero_vector(dim: usize) -> (r: Embedding)
    ensures
        r@ == zero_embedding(dim as nat),
{
    let values = vec![ZERO; dim];
    assert(values@ =~= zeros(dim as nat));
    Embedding { values, divisor: None }
}

/// Guards the raw vector before normalization, which would mask each of these
/// faults as a unit vector. `dim` is the truncation target that
/// [`truncate_and_normalize`] will be called with, so `raw` must carry at
/// least that many entries; `norm` is the norm of the first `dim` of them.
pub fn validate_raw_vector(raw: &[u32], dim: usize, norm: u32) -> (r: Result<(), EmbeddingError>)
    ensures
        match raw_vector_error(raw@, dim, norm) {
            Some(e) => r == Err::<(), EmbeddingError>(e),
            None => r is Ok,
        },
        r is Ok <==> raw@.len() >= dim && all_finite(raw@) && !crate::bits::less(
            norm,
            0x3586_37bd,
        ),
{
    let got: usize = raw.len();
    proof {
        law_validation_refuses_only_faults(raw@, dim, norm);
    }
    if got < dim {
        return Err(EmbeddingError::DimensionMismatch { got, expected: dim });
    }
    let mut i: usize = 0;
    while i < raw.len()
        invariant
            i <= raw@.len(),
            raw@.len() >= dim,
            forall|j: int| 0 <= j < i ==> crate::bits::finite(#[trigger] raw@[j]),
        decreases raw@.len() - i,
    {
        if !is_finite(raw[i]) {
            assert(!crate::bits::finite(raw@[i as int]));
            return Err(EmbeddingError::NonFiniteVector);
        }
        i = i + 1;
    }
    if is_less(norm, DEGENERATE_NORM) {
        // subsumes the exact-zero check and catches denormal noise
        return Err(EmbeddingError::DegenerateVector);
    }
    Ok(())
}

/// Takes the first `dim` entries of `v` and L2-normalises them, `norm` being
/// their norm. Returns the zero vector if the norm is below `1e-9`. Kept as a
/// backstop even where callers already validate via [`validate_raw_vector`].
pub fn truncate_and_normalize(v: Vec<u32>, dim: usize, norm: u32) -> (r: Embedding)
    ensures
        r@ == normalized(v@, dim as nat, norm),
{
    let mut values = v;
    if dim < values.len() {
        values.truncate(dim);
    }
    assert(values@ =~= truncated(v@, dim as nat));
    if is_less(norm, NEGLIGIBLE_NORM) {
        return Embedding { values: zero_vector(values.len()).values, divisor: None };
    }
    Embedding { values, divisor: Some(norm) }
}

/// A vector that passed validation comes out of normalization with exactly
/// `dim` entries, its own first ones, and is divided by its norm.
pub proof fn law_valid_vector_is_normalized(raw: Seq<u32>, dim: usize, norm: u32)
    requires
        raw_vector_error(raw, dim, norm) is None,
    ensures
        normalized(raw, dim as nat, norm).values.len() == dim,
        normalized(raw, dim as nat, norm).values == raw.take(dim as int),
        normalized(raw, dim as nat, norm).divisor == Some(norm),
{
}

/// A vector that passes for one dimension passes for any larger one that it
/// has entries for, given that the norm of more entries is not less. The norm
/// of finite entries is always a number, which the smaller one has to be here.
pub proof fn law_valid_for_larger_dimension(
    raw: Seq<u32>,
    dim: usize,
    norm: u32,
    larger_dim: usize,
    larger_norm: u32,
)
    requires
        raw_vector_error(raw, dim, norm) is None,
        dim <= larger_dim <= raw.len(),
        !crate::bits::nan(norm),
        !crate::bits::less(larger_norm, norm),
    ensures
        raw_vector_error(raw, larger_dim, larger_norm) is None,
{
}

/// Normalization never yields more than `dim` entries, and fewer only when it
/// was handed fewer.
pub proof fn law_normalized_dimension(v: Seq<u32>, dim: usize, norm: u32)
    ensures
        normalized(v, dim as nat, norm).values.len() == if v.len() < dim {
            v.len()
        } else {
            dim as nat
        },
{
}

/// The two thresholds, as numbers: each is the multiple of its unit that is
/// closest to `1e-6` and to `1e-9`.
pub proof fn law_thresholds()
    ensures
        ({
            let unit = vstd::arithmetic::power2::pow2(106) as int;
            let steps = crate::bits::number(DEGENERATE_NORM) / unit;
            &&& crate::bits::number(DEGENERATE_NORM) == steps * unit
            &&& 0x80_0000 <= steps < 0x100_0000
            &&& -1_000_000 <= 2 * (steps * 1_000_000 - 0x800_0000_0000) <= 1_000_000
        }),
        ({
            let unit = vstd::arithmetic::power2::pow2(96) as int;
            let steps = crate::bits::number(NEGLIGIBLE_NORM) / unit;
            &&& crate::bits::number(NEGLIGIBLE_NORM) == steps * unit
            &&& 0x80_0000 <= steps < 0x100_0000
            &&& -1_000_000_000 <= 2 * (steps * 1_000_000_000 - 0x20_0000_0000_0000) <= 1_000_000_000
        }),
        ZERO == 0,
{
    let (p, q) = (
        vstd::arithmetic::power2::pow2(106) as int,
        vstd::arithmetic::power2::pow2(96) as int,
    );
    vstd::arithmetic::power2::lemma_pow2_pos(106);
    vstd::arithmetic::power2::lemma_pow2_pos(96);
    assert(crate::bits::exponent(DEGENERATE_NORM) == 107);
    assert(crate::bits::fraction(DEGENERATE_NORM) == 0x06_37bd);
    assert(crate::bits::exponent(NEGLIGIBLE_NORM) == 97);
    assert(crate::bits::fraction(NEGLIGIBLE_NORM) == 0x09_705f);
    assert((0x86_37bd * p) / p == 0x86_37bd) by (nonlinear_arith)
        requires
            p > 0,
    ;
    assert((0x89_705f * q) / q == 0x89_705f) by (nonlinear_arith)
        requires
            q > 0,
    ;
}

/// Every entry of `raw` stands for a finite number, whatever its sign and size.
pub open spec fn all_finite(raw: Seq<u32>) -> bool {
    forall|i: int| 0 <= i < raw.len() ==> crate::bits::exponent(#[trigger] raw[i]) != 0xff
}

/// A raw vector passes validation exactly where it has at least `dim` entries,
/// every entry is finite, and the norm is not less than `1e-6`: neither the
/// signs nor the sizes of the entries are ever held against it. Each error
/// comes on exactly the vectors that it speaks of; too few entries come first,
/// then entries that are infinite or not numbers, then the norm.
pub proof fn law_validation_refuses_only_faults(raw: Seq<u32>, dim: usize, norm: u32)
    requires
        raw.len() <= usize::MAX,
    ensures
        raw_vector_error(raw, dim, norm) is None <==> {
            &&& raw.len() >= dim
            &&& all_finite(raw)
            &&& !crate::bits::less(norm, 0x3586_37bd)
        },
        raw_vector_error(raw, dim, norm) matches Some(e) ==> match e {
            EmbeddingError::DimensionMismatch { got, expected } => {
                &&& raw.len() < dim
                &&& got == raw.len()
                &&& expected == dim
            },
            EmbeddingError::NonFiniteVector => raw.len() >= dim && !all_finite(raw),
            EmbeddingError::DegenerateVector => {
                &&& raw.len() >= dim
                &&& all_finite(raw)
                &&& crate::bits::less(norm, 0x3586_37bd)
            },
        },
{
    assert forall|i: int| 0 <= i < raw.len() implies (crate::bits::finite(#[trigger] raw[i])
        <==> crate::bits::exponent(raw[i]) != 0xff) by {
        crate::bits::law_pattern_classes(raw[i]);
    }
}

/// Finite entries never cause a refusal: changing entries of a sound vector to
/// other finite ones, under the same norm, leaves it sound.
pub proof fn law_finite_entries_are_interchangeable(
    raw: Seq<u32>,
    other: Seq<u32>,
    dim: usize,
    norm: u32,
)
    requires
        raw.len() == other.len() <= usize::MAX,
        all_finite(raw),
        all_finite(other),
    ensures
        raw_vector_error(raw, dim, norm) == raw_vector_error(other, dim, norm),
{
    law_validation_refuses_only_faults(raw, dim, norm);
    law_validation_refuses_only_faults(other, dim, norm);
}

/// Normalization moves no entry and changes none: unless the norm is less than
/// `1e-9`, the entries are the first ones of the vector, each in its place, and
/// the divisor is the norm. With a lesser norm all are zero, and nothing is
/// divided.
pub proof fn law_normalization_keeps_entries(v: Seq<u32>, dim: usize, norm: u32)
    ensures
        ({
            let r = normalized(v, dim as nat, norm);
            &&& r.values.len() == if v.len() < dim {
                v.len() as int
            } else {
                dim as int
            }
            &&& !crate::bits::less(norm, 0x3089_705f) ==> {
                &&& r.divisor == Some(norm)
                &&& forall|i: int| 0 <= i < r.values.len() ==> #[trigger] r.values[i] == v[i]
            }
            &&& crate::bits::less(norm, 0x3089_705f) ==> {
                &&& r.divisor is None
                &&& forall|i: int| 0 <= i < r.values.len() ==> #[trigger] r.values[i] == 0
            }
        }),
{
}

/// The zero vector has as many entries as it has dimensions, all of them zero,
/// and is divided by nothing.
pub proof fn law_zero_vector_is_zero(dim: nat)
    ensures
        zero_embedding(dim).values.len() == dim,
        forall|i: int| 0 <= i < dim ==> #[trigger] zero_embedding(dim).values[i] == 0,
        zero_embedding(dim).divisor is None,
{
}

/// The contents of an embedding are its own entries and its own divisor.
pub proof fn law_embedding_contents(e: Embedding)
    ensures
        e@.values == e.values@,
        e@.divisor == e.divisor,
{
}

} // verus!
