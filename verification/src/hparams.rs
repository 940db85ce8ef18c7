//! Hyperparameters of a model, fixed when it is loaded.

use vstd::prelude::*;
use crate::bytes::{le_i32, read_i32};
use crate::element::ElementType;
use crate::error::LoadError;

verus! {

/// Shape of the transformer. `max_seq_len` is the context window of every
/// session; `ftype` is the storage type code of the large weight tensors.
#[derive(Clone, Copy, Debug, Default, PartialEq, Eq, PartialOrd, Ord, Structural)]
pub struct Hyperparameters {
    pub d_model: i32,
    pub max_seq_len: i32,
    pub n_heads: i32,
    pub n_layers: i32,
    pub n_vocab: i32,
    pub ftype: i32,
}

/// Length of the fixed header: the magic and six 32-bit fields.
pub const HEADER_LEN: usize = 28;

impl Hyperparameters {
    /// The element type of the large weight tensors, where `ftype` names one.
    pub open spec fn weight_type(self) -> Option<ElementType> {
        ElementType::of_ftype(self.ftype as int)
    }
}

/// The hyperparameters that a header holds: after the four bytes of magic,
/// `d_model`, `max_seq_len`, `n_heads`, `n_layers`, `n_vocab` and `ftype`,
/// in this order, four bytes each.
pub open spec fn header_fields(bytes: Seq<u8>) -> Hyperparameters
    recommends
        bytes.len() >= HEADER_LEN,
{
    Hyperparameters {
        d_model: le_i32(bytes, 4) as i32,
        max_seq_len: le_i32(bytes, 8) as i32,
        n_heads: le_i32(bytes, 12) as i32,
        n_layers: le_i32(bytes, 16) as i32,
        n_vocab: le_i32(bytes, 20) as i32,
        ftype: le_i32(bytes, 24) as i32,
    }
}

/// Reads the header at the start of a model file. The magic is read and not
/// looked at. An image shorter than the header is a failed read of four
/// bytes.
pub fn parse_header(bytes: &[u8]) -> (r: Result<Hyperparameters, LoadError>)
    ensures
        bytes.len() >= HEADER_LEN ==> r == Ok::<Hyperparameters, LoadError>(header_fields(bytes@)),
        bytes.len() < HEADER_LEN ==> r == Err::<Hyperparameters, LoadError>(
            LoadError::ReadExactFailed { bytes: 4 },
        ),
{
    if bytes.len() < HEADER_LEN {
        return Err(LoadError::ReadExactFailed { bytes: 4 });
    }
    let d_model = read_i32(bytes, 4)?;
    let max_seq_len = read_i32(bytes, 8)?;
    let n_heads = read_i32(bytes, 12)?;
    let n_layers = read_i32(bytes, 16)?;
    let n_vocab = read_i32(bytes, 20)?;
    let ftype = read_i32(bytes, 24)?;
    Ok(Hyperparameters { d_model, max_seq_len, n_heads, n_layers, n_vocab, ftype })
}

} // verus!
