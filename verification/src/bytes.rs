//! Little-endian integers in a byte image.

use vstd::prelude::*;
use crate::error::LoadError;

verus! {

/// The unsigned 32-bit integer whose little-endian encoding starts at `at`.
pub open spec fn le_u32(bytes: Seq<u8>, at: int) -> int
    recommends
        0 <= at,
        at + 4 <= bytes.len(),
{
    bytes[at] as int + 0x100 * (bytes[at + 1] as int) + 0x1_0000 * (bytes[at + 2] as int)
        + 0x100_0000 * (bytes[at + 3] as int)
}

/// The two's-complement reading of an unsigned 32-bit value.
pub open spec fn as_signed(u: int) -> int {
    if u < 0x8000_0000 {
        u
    } else {
        u - 0x1_0000_0000
    }
}

/// The signed 32-bit integer whose little-endian encoding starts at `at`.
pub open spec fn le_i32(bytes: Seq<u8>, at: int) -> int
    recommends
        0 <= at,
        at + 4 <= bytes.len(),
{
    as_signed(le_u32(bytes, at))
}

/// True if `count` bytes can be read at `at`.
pub open spec fn has_bytes(bytes: Seq<u8>, at: int, count: int) -> bool {
    0 <= at && 0 <= count && at + count <= bytes.len()
}

/// Reads an unsigned little-endian 32-bit integer at `at`.
pub fn read_u32(bytes: &[u8], at: usize) -> (r: Result<u32, LoadError>)
    ensures
        r is Ok <==> has_bytes(bytes@, at as int, 4),
        r is Ok ==> r->Ok_0 == le_u32(bytes@, at as int),
        r is Err ==> r->Err_0 == (LoadError::ReadExactFailed { bytes: 4 }),
{
    if bytes.len() < 4 || at > bytes.len() - 4 {
        return Err(LoadError::ReadExactFailed { bytes: 4 });
    }
    let b0: u32 = bytes[at] as u32;
    let b1: u32 = bytes[at + 1] as u32;
    let b2: u32 = bytes[at + 2] as u32;
    let b3: u32 = bytes[at + 3] as u32;
    Ok(b0 + 0x100 * b1 + 0x1_0000 * b2 + 0x100_0000 * b3)
}

/// Reads a signed little-endian 32-bit integer at `at`.
pub fn read_i32(bytes: &[u8], at: usize) -> (r: Result<i32, LoadError>)
    ensures
        r is Ok <==> has_bytes(bytes@, at as int, 4),
        r is Ok ==> r->Ok_0 == le_i32(bytes@, at as int),
        r is Err ==> r->Err_0 == (LoadError::ReadExactFailed { bytes: 4 }),
{
    match read_u32(bytes, at) {
        Ok(u) => {
            if u < 0x8000_0000 {
                Ok(u as i32)
            } else {
                let low: i64 = u as i64 - 0x1_0000_0000i64;
                Ok(low as i32)
            }
        },
        Err(e) => Err(e),
    }
}

} // verus!
