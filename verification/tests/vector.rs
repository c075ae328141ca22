use gguf_embed::bits::{is_finite, is_less};
use gguf_embed::vector::{zero_vector, Embedding, DEGENERATE_NORM, NEGLIGIBLE_NORM};
use gguf_embed::{truncate_and_normalize, validate_raw_vector, EmbeddingError};

fn bits(v: &[f32]) -> Vec<u32> {
    v.iter().map(|x| x.to_bits()).collect()
}

fn norm(v: &[f32], dim: usize) -> u32 {
    let squares: f64 = v.iter().take(dim).map(|&x| f64::from(x) * f64::from(x)).sum();
    (squares.sqrt() as f32).to_bits()
}

fn floats(e: Embedding) -> Vec<f32> {
    let divisor = e.divisor.map(f32::from_bits);
    e.values
        .iter()
        .map(|b| match divisor {
            Some(d) => f32::from_bits(*b) / d,
            None => f32::from_bits(*b),
        })
        .collect()
}

fn normalize(v: &[f32], dim: usize) -> Vec<f32> {
    floats(truncate_and_normalize(bits(v), dim, norm(v, dim)))
}

fn validate(v: &[f32], dim: usize) -> Result<(), EmbeddingError> {
    validate_raw_vector(&bits(v), dim, norm(v, dim))
}

#[test]
fn truncate_produces_correct_dimension() {
    let v: Vec<f32> = (0..768).map(|i| i as f32).collect();
    let result = normalize(&v, 128);
    assert_eq!(result.len(), 128);
}

#[test]
fn normalize_produces_unit_vector() {
    let v = vec![3.0f32, 4.0, 0.0, 0.0];
    let result = normalize(&v, 2);
    let mag: f32 = result.iter().map(|x| x * x).sum::<f32>().sqrt();
    assert!((mag - 1.0).abs() < 1e-6, "magnitude was {mag}");
}

#[test]
fn normalize_handles_zero_vector() {
    let v = vec![0.0f32; 768];
    let result = normalize(&v, 128);
    assert_eq!(result.len(), 128);
    assert!(result.iter().all(|x| *x == 0.0));
}

#[test]
fn validate_raw_vector_rejects_wrong_length() {
    let v = vec![1.0f32; 64];
    let result = validate(&v, 128);
    assert!(matches!(
        result,
        Err(EmbeddingError::DimensionMismatch { got: 64, expected: 128 })
    ));
}

#[test]
fn validate_raw_vector_rejects_non_finite() {
    let mut v = vec![1.0f32; 128];
    v[10] = f32::NAN;
    assert!(matches!(validate(&v, 128), Err(EmbeddingError::NonFiniteVector)));

    let mut v = vec![1.0f32; 128];
    v[20] = f32::INFINITY;
    assert!(matches!(validate(&v, 128), Err(EmbeddingError::NonFiniteVector)));
}

#[test]
fn validate_raw_vector_rejects_near_zero_norm() {
    let v = vec![0.0f32; 128];
    assert!(matches!(validate(&v, 128), Err(EmbeddingError::DegenerateVector)));
}

#[test]
fn validate_raw_vector_accepts_healthy_vector() {
    let v: Vec<f32> = (0..768).map(|i| i as f32 + 1.0).collect();
    assert!(validate(&v, 128).is_ok());
}

#[test]
fn thresholds_are_the_intended_numbers() {
    assert_eq!(DEGENERATE_NORM, 1e-6f32.to_bits());
    assert_eq!(NEGLIGIBLE_NORM, 1e-9f32.to_bits());
}

#[test]
fn bit_patterns_order_and_classify_as_the_numbers_do() {
    let samples = vec![
        0.0f32,
        -0.0,
        1.0,
        -1.0,
        1e-6,
        1e-9,
        -1e-9,
        f32::MIN_POSITIVE,
        1e-45,
        -1e-45,
        f32::MAX,
        f32::MIN,
        f32::INFINITY,
        f32::NEG_INFINITY,
        f32::NAN,
        -f32::NAN,
        3.5,
        -2.25,
    ];
    for a in &samples {
        assert_eq!(is_finite(a.to_bits()), a.is_finite(), "finite {a}");
        for b in &samples {
            assert_eq!(is_less(a.to_bits(), b.to_bits()), a < b, "{a} < {b}");
        }
    }
}

#[test]
fn a_non_finite_entry_behind_the_dimension_is_found_too() {
    let mut v = vec![1.0f32; 8];
    v[7] = f32::NEG_INFINITY;
    assert!(matches!(validate(&v, 4), Err(EmbeddingError::NonFiniteVector)));
}

#[test]
fn the_length_is_checked_before_the_entries() {
    let v = vec![f32::NAN; 3];
    assert!(matches!(
        validate(&v, 4),
        Err(EmbeddingError::DimensionMismatch { got: 3, expected: 4 })
    ));
}

#[test]
fn only_the_first_entries_make_up_the_norm() {
    let v = vec![0.0f32, 0.0, 5.0];
    assert!(matches!(validate(&v, 2), Err(EmbeddingError::DegenerateVector)));
    assert!(validate(&v, 3).is_ok());
}

#[test]
fn the_degenerate_threshold_itself_is_accepted() {
    let at = 1e-6f32.to_bits();
    assert!(validate_raw_vector(&bits(&[1e-6]), 1, at).is_ok());
    assert!(matches!(
        validate_raw_vector(&bits(&[1e-6]), 1, at - 1),
        Err(EmbeddingError::DegenerateVector)
    ));
}

#[test]
fn a_norm_that_overflowed_is_not_degenerate() {
    let v = vec![f32::MAX, f32::MAX];
    assert_eq!(norm(&v, 2), f32::INFINITY.to_bits());
    assert!(validate(&v, 2).is_ok());
}

#[test]
fn dimension_zero_is_degenerate() {
    assert!(matches!(validate(&[1.0], 0), Err(EmbeddingError::DegenerateVector)));
    assert_eq!(normalize(&[1.0], 0), Vec::<f32>::new());
}

#[test]
fn normalization_divides_by_the_norm() {
    assert_eq!(normalize(&[3.0, 4.0, 12.0], 2), vec![0.6f32, 0.8]);
    let e = truncate_and_normalize(bits(&[3.0, 4.0, 12.0]), 2, 5.0f32.to_bits());
    assert_eq!(e.values, bits(&[3.0, 4.0]));
    assert_eq!(e.divisor, Some(5.0f32.to_bits()));
}

#[test]
fn a_short_vector_is_not_padded() {
    assert_eq!(normalize(&[3.0, 4.0], 5), vec![0.6f32, 0.8]);
}

#[test]
fn a_negligible_norm_gives_the_zero_vector() {
    let v = vec![1e-12f32, 0.0, 7.0];
    assert_eq!(normalize(&v, 2), vec![0.0f32, 0.0]);
    let v = vec![1e-8f32, 0.0];
    assert_eq!(normalize(&v, 2), vec![1.0f32, 0.0]);
}

#[test]
fn a_valid_vector_comes_out_normalized() {
    let v = vec![2e-6f32, 0.0, 9.0];
    assert!(validate(&v, 2).is_ok());
    let e = truncate_and_normalize(bits(&v), 2, norm(&v, 2));
    assert_eq!(e.values, bits(&v[..2]));
    assert_eq!(e.divisor, Some(norm(&v, 2)));
}

#[test]
fn the_zero_vector_holds_zeros() {
    let e = zero_vector(3);
    assert_eq!(e.divisor, None);
    assert_eq!(floats(e), vec![0.0f32; 3]);
}

#[test]
fn a_vector_that_passes_for_one_dimension_passes_for_larger_ones() {
    let v = vec![0.0f32, 1e-6, 0.0, -3.0, 1e-20, 8.5];
    assert!(validate(&v, 1).is_err());
    for dim in 2..v.len() + 1 {
        assert!(!is_less(norm(&v, dim), norm(&v, 2)));
        assert!(validate(&v, dim).is_ok(), "dimension {dim}");
    }
    assert!(validate(&v, v.len() + 1).is_err());
}

#[test]
fn large_entries_are_normalized_too() {
    assert!(validate(&[3e20, 4e20], 2).is_ok());
    let result = normalize(&[3e20, 4e20], 2);
    assert!((result[0] - 0.6).abs() < 1e-6 && (result[1] - 0.8).abs() < 1e-6, "{result:?}");
}
