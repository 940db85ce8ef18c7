//! Error values of the three public surfaces: loading, snapshots, inference.

use vstd::prelude::*;

verus! {

/// Why a model could not be loaded.
///
/// The variants that speak of a `part` name the part by its position in the
/// lexicographically sorted list of part files; part 0 is the main file.
#[allow(inconsistent_fields)]
#[derive(Clone, Debug, PartialEq, Eq)]
pub enum LoadError {
    /// A model file could not be opened.
    OpenFileFailed { path: String },
    /// The main file has no parent directory in which parts could be found.
    NoParentPath { path: String },
    /// The input ended before `bytes` bytes could be read.
    ReadExactFailed { bytes: usize },
    /// The image of a part ends inside the data of a tensor that is to be
    /// written, or another input/output failure.
    IO,
    /// A tensor name is not UTF-8.
    InvalidUtf8,
    /// A number in the file does not fit the type it is used at.
    InvalidIntegerConversion,
    UnversionedMagic,
    InvalidMagic { path: String },
    InvalidFormatVersion { value: u32 },
    /// The storage type code of the hyperparameters is not one of 0 to 3.
    HyperparametersF16Invalid { value: i32 },
    /// A tensor entry names a tensor that the model does not declare.
    UnknownTensor { tensor_name: String, part: usize },
    /// A tensor entry has neither one nor two dimensions, disagrees with the
    /// declared tensor in shape or byte size, splits it unevenly, or fills a
    /// tensor other than exactly once.
    TensorWrongSize { tensor_name: String, part: usize },
    /// The storage type code of a tensor entry is not one of 0 to 3.
    InvalidFtype { ftype: i32, part: usize },
}

/// A [`LoadError`] with its texts as character sequences.
pub enum LoadFailure {
    OpenFileFailed { path: Seq<char> },
    NoParentPath { path: Seq<char> },
    ReadExactFailed { bytes: usize },
    IO,
    InvalidUtf8,
    InvalidIntegerConversion,
    UnversionedMagic,
    InvalidMagic { path: Seq<char> },
    InvalidFormatVersion { version: u32 },
    HyperparametersF16Invalid { value: i32 },
    UnknownTensor { tensor_name: Seq<char>, part: usize },
    TensorWrongSize { tensor_name: Seq<char>, part: usize },
    InvalidFtype { ftype: i32, part: usize },
}

impl View for LoadError {
    type V = LoadFailure;

    open spec fn view(&self) -> LoadFailure {
        match *self {
            LoadError::OpenFileFailed { path } => LoadFailure::OpenFileFailed { path: path@ },
            LoadError::NoParentPath { path } => LoadFailure::NoParentPath { path: path@ },
            LoadError::ReadExactFailed { bytes } => LoadFailure::ReadExactFailed { bytes },
            LoadError::IO => LoadFailure::IO,
            LoadError::InvalidUtf8 => LoadFailure::InvalidUtf8,
            LoadError::InvalidIntegerConversion => LoadFailure::InvalidIntegerConversion,
            LoadError::UnversionedMagic => LoadFailure::UnversionedMagic,
            LoadError::InvalidMagic { path } => LoadFailure::InvalidMagic { path: path@ },
            LoadError::InvalidFormatVersion { value } => LoadFailure::InvalidFormatVersion {
                version: value,
            },
            LoadError::HyperparametersF16Invalid { value } => LoadFailure::HyperparametersF16Invalid {
                value,
            },
            LoadError::UnknownTensor { tensor_name, part } => LoadFailure::UnknownTensor {
                tensor_name: tensor_name@,
                part,
            },
            LoadError::TensorWrongSize { tensor_name, part } => LoadFailure::TensorWrongSize {
                tensor_name: tensor_name@,
                part,
            },
            LoadError::InvalidFtype { ftype, part } => LoadFailure::InvalidFtype { ftype, part },
        }
    }
}

/// Why a snapshot could not be written, read or restored.
#[derive(Clone, Debug, PartialEq, Eq)]
pub enum SnapshotError {
    /// An input/output failure, with its description.
    IO { message: String },
    /// The byte stream is not a serialized snapshot, with the codec's description.
    Serialization { message: String },
    /// The snapshot's key/value memory does not have the size of the
    /// session's: `self_size` is the session's total, `input_size` the
    /// snapshot's.
    MemorySizeMismatch { self_size: usize, input_size: usize },
}

/// Why inference stopped.
#[derive(Clone, Debug, PartialEq, Eq)]
pub enum InferenceError {
    /// The prompt could not be turned into tokens.
    TokenizationFailed,
    /// The context window cannot take the tokens that the call would add.
    ContextFull,
    /// The token sink reported an error, described by `message`.
    UserCallback { message: String },
}

} // verus!
