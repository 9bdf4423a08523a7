//! The errors that the library's own logic reports.
use vstd::prelude::*;

verus! {

/// An error of the inference runtime's own logic. Errors raised by the
/// tensor runtime, the file system or the template engine are carried by the
/// application around this library.
#[derive(Debug, Clone, PartialEq, Eq)]
pub enum Error {
    InvalidConfig(String),
    UnsupportedWeight(String),
    ParseIntError(String),
    RootModelPathNotFound(String),
    ModelPathNotFound(String),
    ModelWeightPathNotFound(String),
    NoTensorInModelFile,
    TensorSizeMismatch(usize, usize),
    SafetensorsHeaderReadError,
    SafetensorsOutOfBounds { tensor: String, start: usize, end: usize, file_size: usize },
    MemoryPeakQueryFailure,
    ModelRuntimeNotFoundWithId(String),
    EmptyPrompt,
    MissingModel,
    MissingChatTemplate,
    MissingTokenizer,
    RoutineMissingWeight(String),
    RoutineMissingModel(String),
    PaddingFailedFindMax,
    MissingPadToken,
    UnexpectedMaskShape(Vec<i32>),
    /// The tensor runtime builds no causal mask with a negative size or offset.
    InvalidMaskSize { n: i32, offset: i32 },
    TokenGenerationStartFailure,
    AnnInvalidEmbedding { id: i32, expected_dim: usize, actual_dim: usize },
    AnnDuplicateInsertId(i32),
    /// The tokenizer could not encode a batch; the text of its error.
    EncodingProcessingError(String),
    /// The tokenizer failed; the text of its error.
    TokenizerError(String),
    /// Bytes that are not UTF-8 where text was expected.
    Utf8Error(String),
    MlxFunctionLoadFailure(String),
    /// The template engine could not compile or render a template; the text
    /// of its error.
    MiniJinjaError(String),
}

pub type Result<T> = core::result::Result<T, Error>;

} // verus!
