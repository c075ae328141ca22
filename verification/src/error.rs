//! What can go wrong, and how it is reported.
use std::path::PathBuf;

use vstd::prelude::*;

verus! {

/// `std::path::PathBuf`, carried through as it is; nothing is claimed of it.
#[verifier::external_type_specification]
#[verifier::external_body]
pub struct ExPathBuf(std::path::PathBuf);

/// A raw embedding vector failed validation before normalization.
/// Normalization would otherwise mask each of these as a clean unit vector,
/// silently poisoning a downstream vector index with a corrupted embedding.
#[derive(Debug)]
pub enum EmbeddingError {
    /// The model returned fewer elements than the truncation target.
    DimensionMismatch { got: usize, expected: usize },
    /// The raw vector contains NaN or +/-Inf.
    NonFiniteVector,
    /// The raw vector's norm is below epsilon: indistinguishable from noise
    /// once normalized. Subsumes the exact-zero case.
    DegenerateVector,
}

/// Why an embedder could not be loaded, or texts could not be embedded.
#[derive(Debug)]
pub enum GgufEmbedError {
    /// The llama.cpp backend failed to initialize.
    BackendInit,
    /// The GGUF model at `path` could not be loaded.
    ModelLoad { path: PathBuf, reason: String },
    /// No llama.cpp context could be created.
    ContextCreation(String),
    /// The task that loads the embedder panicked.
    LoadTaskPanicked(String),
    /// A thread panicked while it held the lock.
    LockPoisoned,
    /// A text could not be tokenized.
    Tokenize(String),
    /// A batch could not be put together.
    BatchConstruction(String),
    /// A batch could not be encoded.
    Encode(String),
    /// A pooled embedding could not be read.
    ReadEmbedding(String),
    /// A pooled embedding did not pass validation.
    Validation(EmbeddingError),
    /// An embedding was asked for and none came.
    EmptyResult,
}

/// The decimal digit for `d`.
pub open spec fn digit(d: int) -> char {
    (48 + d) as char
}

/// `n` in decimal, without leading zeros.
pub open spec fn decimal(n: nat) -> Seq<char>
    decreases n,
{
    if n < 10 {
        seq![digit(n as int)]
    } else {
        decimal(n / 10).push(digit((n % 10) as int))
    }
}

fn digit_text(d: usize) -> (r: &'static str)
    requires
        d < 10,
    ensures
        r@ == seq![digit(d as int)],
{
    proof {
        reveal_strlit("0");
        reveal_strlit("1");
        reveal_strlit("2");
        reveal_strlit("3");
        reveal_strlit("4");
        reveal_strlit("5");
        reveal_strlit("6");
        reveal_strlit("7");
        reveal_strlit("8");
        reveal_strlit("9");
    }
    let r = match d {
        0 => "0",
        1 => "1",
        2 => "2",
        3 => "3",
        4 => "4",
        5 => "5",
        6 => "6",
        7 => "7",
        8 => "8",
        _ => "9",
    };
    assert(r@ =~= seq![digit(d as int)]);
    r
}

fn decimal_text(n: usize) -> (r: String)
    ensures
        r@ == decimal(n as nat),
    decreases n,
{
    if n < 10 {
        String::from_str(digit_text(n))
    } else {
        let mut r = decimal_text(n / 10);
        r.append(digit_text(n % 10));
        assert(r@ =~= decimal(n as nat));
        r
    }
}

impl EmbeddingError {
    /// The text that [`EmbeddingError::message`] gives.
    pub open spec fn text(self) -> Seq<char> {
        match self {
            EmbeddingError::DimensionMismatch { got, expected } => {
                "embedding dimension mismatch: got "@ + decimal(got as nat)
                    + " elements, need at least "@ + decimal(expected as nat)
            },
            EmbeddingError::NonFiniteVector => "embedding contains NaN or infinite values"@,
            EmbeddingError::DegenerateVector => {
                "embedding norm is below epsilon (degenerate/near-zero vector)"@
            },
        }
    }

    /// The error in words.
    pub fn message(&self) -> (r: String)
        ensures
            r@ == self.text(),
    {
        match self {
            EmbeddingError::DimensionMismatch { got, expected } => {
                String::from_str("embedding dimension mismatch: got ").concat(
                    decimal_text(*got).as_str(),
                ).concat(" elements, need at least ").concat(decimal_text(*expected).as_str())
            },
            EmbeddingError::NonFiniteVector => String::from_str(
                "embedding contains NaN or infinite values",
            ),
            EmbeddingError::DegenerateVector => String::from_str(
                "embedding norm is below epsilon (degenerate/near-zero vector)",
            ),
        }
    }
}

/// The debug form of `path`, as the `Debug` impl of `std::path::PathBuf`
/// writes it. Nothing is claimed of the text: how a path is quoted and escaped
/// is left to std, which does not promise a fixed form.
#[verifier::external_body]
fn path_text(path: &PathBuf) -> (r: String) {
    format!("{:?}", path)
}

/// `shown` is a text that writing `path` in its debug form gave.
pub closed spec fn debug_form(path: PathBuf, shown: Seq<char>) -> bool {
    exists|text: String| #[trigger]
        call_ensures(path_text, (&path,), text) && text@ == shown
}

/// Writes `path` in its debug form with `write`.
fn written(write: impl Fn(&PathBuf) -> String, path: &PathBuf) -> (r: String)
    requires
        call_requires(write, (path,)),
    ensures
        call_ensures(write, (path,), r),
{
    write(path)
}

impl GgufEmbedError {
    /// The error in words, where `shown` is the debug form of the model's
    /// path. Only [`GgufEmbedError::ModelLoad`] has such a path.
    pub open spec fn text(self, shown: Seq<char>) -> Seq<char> {
        match self {
            GgufEmbedError::BackendInit => "llama.cpp backend failed to initialize"@,
            GgufEmbedError::ModelLoad { path, reason } => {
                "failed to load GGUF model at "@ + shown + ": "@ + reason@
            },
            GgufEmbedError::ContextCreation(reason) => {
                "failed to create llama.cpp context: "@ + reason@
            },
            GgufEmbedError::LoadTaskPanicked(reason) => {
                "embedder load task panicked: "@ + reason@
            },
            GgufEmbedError::LockPoisoned => "embedder lock poisoned"@,
            GgufEmbedError::Tokenize(reason) => "tokenize failed: "@ + reason@,
            GgufEmbedError::BatchConstruction(reason) => {
                "batch construction failed: "@ + reason@
            },
            GgufEmbedError::Encode(reason) => "encode failed: "@ + reason@,
            GgufEmbedError::ReadEmbedding(reason) => {
                "failed to read pooled embedding: "@ + reason@
            },
            GgufEmbedError::Validation(e) => e.text(),
            GgufEmbedError::EmptyResult => "embed() returned no output for non-empty input"@,
        }
    }

    /// The error in words, with `shown` for the path of a model that was not loaded.
    pub fn message_with_path(&self, shown: &str) -> (r: String)
        ensures
            r@ == self.text(shown@),
    {
        match self {
            GgufEmbedError::BackendInit => String::from_str(
                "llama.cpp backend failed to initialize",
            ),
            GgufEmbedError::ModelLoad { path: _, reason } => String::from_str(
                "failed to load GGUF model at ",
            ).concat(shown).concat(": ").concat(reason.as_str()),
            GgufEmbedError::ContextCreation(reason) => String::from_str(
                "failed to create llama.cpp context: ",
            ).concat(reason.as_str()),
            GgufEmbedError::LoadTaskPanicked(reason) => String::from_str(
                "embedder load task panicked: ",
            ).concat(reason.as_str()),
            GgufEmbedError::LockPoisoned => String::from_str("embedder lock poisoned"),
            GgufEmbedError::Tokenize(reason) => String::from_str("tokenize failed: ").concat(
                reason.as_str(),
            ),
            GgufEmbedError::BatchConstruction(reason) => String::from_str(
                "batch construction failed: ",
            ).concat(reason.as_str()),
            GgufEmbedError::Encode(reason) => String::from_str("encode failed: ").concat(
                reason.as_str(),
            ),
            GgufEmbedError::ReadEmbedding(reason) => String::from_str(
                "failed to read pooled embedding: ",
            ).concat(reason.as_str()),
            GgufEmbedError::Validation(e) => e.message(),
            GgufEmbedError::EmptyResult => String::from_str(
                "embed() returned no output for non-empty input",
            ),
        }
    }

    /// The error in words. The path of a model that was not loaded appears in
    /// its debug form, which std decides; everything else is fixed.
    pub fn message(&self) -> (r: String)
        ensures
            match *self {
                GgufEmbedError::ModelLoad { path, reason: _ } => exists|shown: Seq<char>|
                    #[trigger] debug_form(path, shown) && r@ == self.text(shown),
                _ => forall|shown: Seq<char>| r@ == #[trigger] self.text(shown),
            },
    {
        let shown = match self {
            GgufEmbedError::ModelLoad { path, reason: _ } => {
                let shown = written(path_text, path);
                assert(debug_form(*path, shown@));
                shown
            },
            _ => String::new(),
        };
        self.message_with_path(shown.as_str())
    }
}

impl From<EmbeddingError> for GgufEmbedError {
    fn from(e: EmbeddingError) -> (r: GgufEmbedError) {
        GgufEmbedError::Validation(e)
    }
}

impl vstd::std_specs::convert::FromSpecImpl<EmbeddingError> for GgufEmbedError {
    open spec fn obeys_from_spec() -> bool {
        true
    }

    open spec fn from_spec(e: EmbeddingError) -> GgufEmbedError {
        GgufEmbedError::Validation(e)
    }
}

/// The decimal form of a number: one digit below ten, and else that of the
/// number without its last digit, and then that digit. It has no leading zero.
pub proof fn law_decimal_form(n: nat, d: nat)
    requires
        d < 10,
    ensures
        decimal(d).len() == 1,
        decimal(d)[0] as int == '0' as int + d,
        n > 0 ==> decimal(n * 10 + d).len() == decimal(n).len() + 1,
        n > 0 ==> decimal(n * 10 + d).drop_last() == decimal(n),
        n > 0 ==> decimal(n * 10 + d).last() as int == '0' as int + d,
        n > 0 ==> decimal(n)[0] != '0',
{
    if n > 0 {
        assert((n * 10 + d) / 10 == n);
        assert((n * 10 + d) % 10 == d);
        assert(decimal(n * 10 + d).drop_last() =~= decimal(n));
        lemma_no_leading_zero(n);
    }
}

proof fn lemma_no_leading_zero(n: nat)
    requires
        n > 0,
    ensures
        decimal(n).len() > 0,
        decimal(n)[0] != '0',
    decreases n,
{
    if n >= 10 {
        lemma_no_leading_zero(n / 10);
    }
}

/// What the vector errors say: both numbers where the dimensions do not match,
/// and fixed words otherwise.
pub proof fn law_vector_error_texts(got: usize, expected: usize)
    ensures
        (EmbeddingError::DimensionMismatch { got, expected }).text()
            == "embedding dimension mismatch: got "@ + decimal(got as nat)
            + " elements, need at least "@ + decimal(expected as nat),
        EmbeddingError::NonFiniteVector.text() == "embedding contains NaN or infinite values"@,
        EmbeddingError::DegenerateVector.text()
            == "embedding norm is below epsilon (degenerate/near-zero vector)"@,
{
}

/// Every error that has a reason ends in that reason, in full and behind words
/// that are its own; one that comes from a vector says what the vector error
/// says.
pub proof fn law_errors_end_in_their_reason(
    path: PathBuf,
    reason: String,
    e: EmbeddingError,
    shown: Seq<char>,
)
    ensures
        (GgufEmbedError::ModelLoad { path, reason }).text(shown)
            == "failed to load GGUF model at "@ + shown + ": "@ + reason@,
        GgufEmbedError::ContextCreation(reason).text(shown)
            == "failed to create llama.cpp context: "@ + reason@,
        GgufEmbedError::LoadTaskPanicked(reason).text(shown) == "embedder load task panicked: "@
            + reason@,
        GgufEmbedError::Tokenize(reason).text(shown) == "tokenize failed: "@ + reason@,
        GgufEmbedError::BatchConstruction(reason).text(shown) == "batch construction failed: "@
            + reason@,
        GgufEmbedError::Encode(reason).text(shown) == "encode failed: "@ + reason@,
        GgufEmbedError::ReadEmbedding(reason).text(shown) == "failed to read pooled embedding: "@
            + reason@,
        GgufEmbedError::Validation(e).text(shown) == e.text(),
        GgufEmbedError::BackendInit.text(shown) == "llama.cpp backend failed to initialize"@,
        GgufEmbedError::LockPoisoned.text(shown) == "embedder lock poisoned"@,
        GgufEmbedError::EmptyResult.text(shown)
            == "embed() returned no output for non-empty input"@,
{
}

} // verus!
