//! Tensor entries of a model file.
//!
//! An entry is three signed 32-bit integers (the number of dimensions, the
//! byte length of the name, the storage type code), one signed 32-bit
//! integer per dimension, the name, and the tensor's data.

use vstd::prelude::*;
use vstd::slice::{slice_subrange, slice_to_vec};
use vstd::utf8::{decode_utf8, valid_utf8};
use crate::bytes::{has_bytes, le_i32, read_i32};
use crate::error::{LoadError, LoadFailure};
use crate::text::string_from_utf8;

verus! {

/// What stands before the data of a tensor entry.
#[derive(Debug, PartialEq, Eq)]
pub struct EntryHeader {
    pub n_dims: i32,
    pub ftype: i32,
    /// Elements per row.
    pub ne0: i32,
    /// Rows; 1 for an entry of one dimension.
    pub ne1: i32,
    pub name: String,
    /// Offset of the first byte of data.
    pub data_at: usize,
}

/// An [`EntryHeader`] with its name as a character sequence.
pub struct EntryHeaderView {
    pub n_dims: i32,
    pub ftype: i32,
    pub ne0: i32,
    pub ne1: i32,
    pub name: Seq<char>,
    pub data_at: int,
}

impl View for EntryHeader {
    type V = EntryHeaderView;

    open spec fn view(&self) -> EntryHeaderView {
        EntryHeaderView {
            n_dims: self.n_dims,
            ftype: self.ftype,
            ne0: self.ne0,
            ne1: self.ne1,
            name: self.name@,
            data_at: self.data_at as int,
        }
    }
}

/// How many dimensions an entry with a count of `n_dims` holds: the count,
/// or none where the count is below zero.
pub open spec fn dims_held(n_dims: int) -> int {
    if n_dims > 0 {
        n_dims
    } else {
        0
    }
}

/// The header of the entry that starts at `pos`, or the error that reading
/// it gives:
///
/// - `ReadExactFailed` where the image ends inside the header;
/// - `InvalidIntegerConversion` where the name's length is negative;
/// - `InvalidUtf8` where the name is not UTF-8.
///
/// The name stands behind the dimensions, however many the entry holds. The
/// first dimension is the number of elements per row and the second the
/// number of rows; a dimension that the entry does not hold is 1.
pub open spec fn entry_header_at(bytes: Seq<u8>, pos: int, part: usize) -> Result<
    EntryHeaderView,
    LoadFailure,
> {
    if !has_bytes(bytes, pos, 12) {
        Err(LoadFailure::ReadExactFailed { bytes: 4 })
    } else {
        let n_dims = le_i32(bytes, pos);
        let length = le_i32(bytes, pos + 4);
        let name_at = pos + 12 + 4 * dims_held(n_dims);
        if !has_bytes(bytes, pos + 12, 4 * dims_held(n_dims)) {
            Err(LoadFailure::ReadExactFailed { bytes: 4 })
        } else if length < 0 {
            Err(LoadFailure::InvalidIntegerConversion)
        } else if !has_bytes(bytes, name_at, length) {
            Err(LoadFailure::ReadExactFailed { bytes: length as usize })
        } else if !valid_utf8(bytes.subrange(name_at, name_at + length)) {
            Err(LoadFailure::InvalidUtf8)
        } else {
            Ok(
                EntryHeaderView {
                    n_dims: n_dims as i32,
                    ftype: le_i32(bytes, pos + 8) as i32,
                    ne0: if n_dims >= 1 {
                        le_i32(bytes, pos + 12) as i32
                    } else {
                        1
                    },
                    ne1: if n_dims >= 2 {
                        le_i32(bytes, pos + 16) as i32
                    } else {
                        1
                    },
                    name: decode_utf8(bytes.subrange(name_at, name_at + length)),
                    data_at: name_at + length,
                },
            )
        }
    }
}

/// Reads the header of the entry at `pos`.
pub fn read_entry_header(bytes: &[u8], pos: usize, part: usize) -> (r: Result<
    EntryHeader,
    LoadError,
>)
    ensures
        match entry_header_at(bytes@, pos as int, part) {
            Ok(h) => r is Ok && r->Ok_0@ == h,
            Err(e) => r is Err && r->Err_0@ == e,
        },
        r is Ok ==> pos + 12 + 4 * dims_held(r->Ok_0.n_dims as int) <= r->Ok_0.data_at
            <= bytes.len(),
{
    let total = bytes.len();
    if total < 12 || pos > total - 12 {
        return Err(LoadError::ReadExactFailed { bytes: 4 });
    }
    let n_dims = match read_i32(bytes, pos) {
        Ok(v) => v,
        Err(e) => {
            return Err(e);
        },
    };
    let length = match read_i32(bytes, pos + 4) {
        Ok(v) => v,
        Err(e) => {
            return Err(e);
        },
    };
    let ftype = match read_i32(bytes, pos + 8) {
        Ok(v) => v,
        Err(e) => {
            return Err(e);
        },
    };
    let dims_len: u64 = if n_dims > 0 {
        4 * (n_dims as u64)
    } else {
        0
    };
    if dims_len > (total - (pos + 12)) as u64 {
        return Err(LoadError::ReadExactFailed { bytes: 4 });
    }
    let dims_len = dims_len as usize;
    let ne0 = if n_dims >= 1 {
        match read_i32(bytes, pos + 12) {
            Ok(v) => v,
            Err(e) => {
                return Err(e);
            },
        }
    } else {
        1
    };
    let ne1 = if n_dims >= 2 {
        match read_i32(bytes, pos + 16) {
            Ok(v) => v,
            Err(e) => {
                return Err(e);
            },
        }
    } else {
        1
    };
    if length < 0 {
        return Err(LoadError::InvalidIntegerConversion);
    }
    let length = length as usize;
    let name_at = pos + 12 + dims_len;
    if length > total - name_at {
        return Err(LoadError::ReadExactFailed { bytes: length });
    }
    let raw = slice_to_vec(slice_subrange(bytes, name_at, name_at + length));
    match string_from_utf8(raw) {
        Some(name) => Ok(EntryHeader { n_dims, ftype, ne0, ne1, name, data_at: name_at + length }),
        None => Err(LoadError::InvalidUtf8),
    }
}

} // verus!
