//! Placing the data of one tensor entry into its declared tensor.
//!
//! An entry of one dimension, or any entry of a model in one part, holds the
//! whole tensor: part 0 writes it, a later part passes over the same bytes.
//! Otherwise the tensor is split along its rows: each of the `n` parts
//! holds, for every row, one `n`-th of the row's bytes, and writes it
//! `part * (row_size / n)` bytes into the row. A tensor is split only where
//! its rows divide among the parts without a remainder, so that the parts
//! together write every byte of it.

use vstd::prelude::*;
use vstd::arithmetic::div_mod::{
    lemma_div_is_ordered,
    lemma_div_multiples_vanish,
    lemma_div_pos_is_pos,
    lemma_fundamental_div_mod,
    lemma_fundamental_div_mod_converse,
};
use vstd::slice::{slice_subrange, slice_to_vec};
use crate::arith::lemma_mul_bound;
use crate::bytes::has_bytes;
use crate::element::{ElementType, TypeTable};
use crate::entry::{EntryHeader, EntryHeaderView};
use crate::error::{LoadError, LoadFailure};
use crate::tensor::{PartFill, Tensor, TensorView};

verus! {

/// Some part has written a fragment.
pub open spec fn has_fragment(fill: Seq<PartFill>) -> bool {
    exists|q: int| 0 <= q < fill.len() && fill[q] == PartFill::Fragment
}

/// The entry holds the whole tensor.
pub open spec fn entry_is_whole(h: EntryHeaderView, n_parts: int) -> bool {
    h.n_dims == 1 || n_parts == 1
}

/// The entry's element count and shape are those of the tensor, or of its
/// share of a tensor split over `n_parts`.
pub open spec fn shape_agrees(t: TensorView, h: EntryHeaderView, n_parts: int) -> bool {
    if h.n_dims == 1 {
        t.ne0 * t.ne1 == h.ne0 * h.ne1 && t.ne0 == h.ne0 && t.ne1 == h.ne1
    } else {
        (t.ne0 * t.ne1) / n_parts == h.ne0 * h.ne1 && t.ne0 as int / n_parts == h.ne0 && t.ne1
            == h.ne1
    }
}

/// The part may place the entry without writing any byte twice: it has not
/// touched the tensor, a whole tensor is not written over fragments, and a
/// fragment is not written over a whole tensor.
pub open spec fn fill_allows(fill: Seq<PartFill>, part: int, whole: bool) -> bool {
    &&& fill[part] == PartFill::Untouched
    &&& whole && part == 0 ==> !has_fragment(fill)
    &&& !whole ==> fill[0] != PartFill::Whole
}

/// `old` with the fragments of part `part` written into the first `rows`
/// rows: byte `c` of row `r` comes from the entry's data at
/// `r * frag + (c - part * frag)` where `c` lies in the part's share of the
/// row.
pub open spec fn scatter(
    old: Seq<u8>,
    bytes: Seq<u8>,
    at: int,
    row: int,
    frag: int,
    part: int,
    rows: int,
) -> Seq<u8> {
    Seq::new(
        old.len(),
        |j: int|
            if row > 0 && j / row < rows && part * frag <= j % row < (part + 1) * frag {
                bytes[at + (j / row) * frag + (j % row - part * frag)]
            } else {
                old[j]
            },
    )
}

/// The tensor after part `part` has placed the entry with header `h`, and
/// the offset after the entry's data; or the error:
///
/// - `TensorWrongSize` where the entry has neither one nor two dimensions,
///   or its element count or shape disagree with the tensor's;
/// - `InvalidFtype` where the type code is not one of 0 to 3;
/// - `TensorWrongSize` where the tensor is split and does not split evenly
///   among the parts, the byte size is not the tensor's (or its share), or
///   the placement would fill a byte a second time;
/// - `IO` where the image ends inside data that is to be written.
///
/// A part other than part 0 passes over a whole tensor without reading it:
/// it goes on behind the data, or at the end of its image where the data
/// ends early.
pub open spec fn place_result(
    t: TensorView,
    types: TypeTable,
    bytes: Seq<u8>,
    h: EntryHeaderView,
    part: usize,
) -> Result<(TensorView, int), LoadFailure> {
    let n_parts = t.fill.len() as int;
    let whole = entry_is_whole(h, n_parts);
    let wrong = LoadFailure::TensorWrongSize { tensor_name: h.name, part };
    if (h.n_dims != 1 && h.n_dims != 2) || !shape_agrees(t, h, n_parts) {
        Err(wrong)
    } else {
        match ElementType::of_ftype(h.ftype as int) {
            None => Err(LoadFailure::InvalidFtype { ftype: h.ftype, part }),
            Some(etype) => {
                let size = types.layout(etype).bytes_for(h.ne0 * h.ne1);
                let share = if whole {
                    t.data.len() as int
                } else {
                    t.data.len() as int / n_parts
                };
                let frag = t.row_size(types) / n_parts;
                let consumed = if whole {
                    t.data.len() as int
                } else {
                    h.ne1 * frag
                };
                let skipped = whole && part != 0;
                if (!whole && !t.splits_evenly(types)) || size != share || !fill_allows(
                    t.fill,
                    part as int,
                    whole,
                ) {
                    Err(wrong)
                } else if !skipped && !has_bytes(bytes, h.data_at, consumed) {
                    Err(LoadFailure::IO)
                } else {
                    let next = if has_bytes(bytes, h.data_at, consumed) {
                        h.data_at + consumed
                    } else {
                        bytes.len() as int
                    };
                    if whole {
                        Ok(
                            (
                                TensorView {
                                    data: if part == 0 {
                                        bytes.subrange(h.data_at, next)
                                    } else {
                                        t.data
                                    },
                                    fill: t.fill.update(part as int, PartFill::Whole),
                                    origin: t.origin.update(part as int, h.data_at as usize),
                                    ..t
                                },
                                next,
                            ),
                        )
                    } else {
                        Ok(
                            (
                                TensorView {
                                    data: scatter(
                                        t.data,
                                        bytes,
                                        h.data_at,
                                        t.row_size(types),
                                        frag,
                                        part as int,
                                        h.ne1 as int,
                                    ),
                                    fill: t.fill.update(part as int, PartFill::Fragment),
                                    origin: t.origin.update(part as int, h.data_at as usize),
                                    ..t
                                },
                                next,
                            ),
                        )
                    }
                }
            },
        }
    }
}

/// Copies `len` bytes of `src` from `src_at` on to `dst` from `dst_at` on.
fn copy_range(dst: &mut Vec<u8>, dst_at: usize, src: &[u8], src_at: usize, len: usize)
    requires
        dst_at + len <= old(dst).len(),
        src_at + len <= src.len(),
    ensures
        final(dst)@.len() == old(dst)@.len(),
        forall|j: int|
            dst_at <= j < dst_at + len ==> #[trigger] final(dst)@[j] == src@[src_at + (j - dst_at)],
        forall|j: int|
            0 <= j < final(dst)@.len() && !(dst_at <= j < dst_at + len) ==> final(dst)@[j] == old(
                dst,
            )@[j],
{
    let mut k: usize = 0;
    while k < len
        invariant
            k <= len,
            dst_at + len <= dst.len(),
            src_at + len <= src.len(),
            dst@.len() == old(dst)@.len(),
            forall|j: int|
                dst_at <= j < dst_at + k ==> #[trigger] dst@[j] == src@[src_at + (j - dst_at)],
            forall|j: int|
                0 <= j < dst@.len() && !(dst_at <= j < dst_at + k) ==> dst@[j] == old(dst)@[j],
        decreases len - k,
    {
        dst[dst_at + k] = src[src_at + k];
        k = k + 1;
    }
}

/// A byte of the current row lies in that row and at its own column.
proof fn lemma_row_col(j: int, row: int, r: int)
    requires
        row > 0,
        r >= 0,
        r * row <= j < r * row + row,
    ensures
        j / row == r,
        j % row == j - r * row,
{
    lemma_fundamental_div_mod_converse(j, row, r, j - r * row);
}

/// A byte outside the current row's span is in another row.
proof fn lemma_other_row(j: int, row: int, r: int)
    requires
        row > 0,
        j >= 0,
        !(r * row <= j < r * row + row),
    ensures
        j / row != r,
{
    lemma_fundamental_div_mod(j, row);
    if j / row == r {
        assert(j == row * r + j % row);
        assert(row * r == r * row) by (nonlinear_arith);
    }
}

/// `old` with a run of `frag` bytes written into each of the first `rows`
/// rows of `row` bytes, `shift` bytes into the row: the run of row `r` comes
/// from `bytes` at `at + r * frag`.
pub open spec fn spread(
    old: Seq<u8>,
    bytes: Seq<u8>,
    at: int,
    row: int,
    shift: int,
    frag: int,
    rows: int,
) -> Seq<u8> {
    Seq::new(
        old.len(),
        |j: int|
            if row > 0 && j / row < rows && shift <= j % row < shift + frag {
                bytes[at + (j / row) * frag + (j % row - shift)]
            } else {
                old[j]
            },
    )
}

/// Writes a run of `frag` bytes into each of the first `rows` rows of
/// `data`, `shift` bytes into the row.
pub(crate) fn spread_rows(
    data: &mut Vec<u8>,
    bytes: &[u8],
    at: usize,
    row: usize,
    shift: usize,
    frag: usize,
    rows: usize,
)
    requires
        rows * row <= old(data).len(),
        shift + frag <= row,
        at + rows * frag <= bytes.len(),
    ensures
        final(data)@ == spread(
            old(data)@,
            bytes@,
            at as int,
            row as int,
            shift as int,
            frag as int,
            rows as int,
        ),
{
    if row == 0 {
        assert(data@ =~= spread(
            old(data)@,
            bytes@,
            at as int,
            row as int,
            shift as int,
            frag as int,
            rows as int,
        ));
        return ;
    }
    let total = data.len();
    let source_len = bytes.len();
    let mut r: usize = 0;
    proof {
        let start = spread(old(data)@, bytes@, at as int, row as int, shift as int, frag as int, 0);
        assert forall|j: int| 0 <= j < data@.len() implies data@[j] == start[j] by {
            lemma_div_pos_is_pos(j, row as int);
        }
        assert(data@ =~= start);
    }
    while r < rows
        invariant
            r <= rows,
            row > 0,
            total == data.len(),
            source_len == bytes.len(),
            data@.len() == old(data)@.len(),
            rows * row <= total,
            shift + frag <= row,
            at + rows * frag <= source_len,
            data@ == spread(
                old(data)@,
                bytes@,
                at as int,
                row as int,
                shift as int,
                frag as int,
                r as int,
            ),
        decreases rows - r,
    {
        assert(r * row + row <= rows * row && r * frag + frag <= rows * frag) by (nonlinear_arith)
            requires
                0 <= r < rows,
                row >= 0,
                frag >= 0,
        ;
        let ghost before = data@;
        let dst_at = r * row + shift;
        let src_at = at + r * frag;
        copy_range(data, dst_at, bytes, src_at, frag);
        proof {
            let after = spread(
                old(data)@,
                bytes@,
                at as int,
                row as int,
                shift as int,
                frag as int,
                r + 1,
            );
            assert forall|j: int| 0 <= j < data@.len() implies data@[j] == after[j] by {
                if r * row <= j < r * row + row {
                    lemma_row_col(j, row as int, r as int);
                    if dst_at <= j < dst_at + frag {
                        assert(data@[j] == bytes@[src_at + (j - dst_at)]);
                    } else {
                        assert(data@[j] == before[j]);
                    }
                } else {
                    lemma_other_row(j, row as int, r as int);
                    assert(data@[j] == before[j]);
                }
            }
            assert(data@ =~= after);
        }
        r = r + 1;
    }
}

/// Writes the fragments of part `part` into the first `rows` rows of `data`.
fn scatter_rows(
    data: &mut Vec<u8>,
    bytes: &[u8],
    at: usize,
    row: usize,
    frag: usize,
    part: usize,
    rows: usize,
)
    requires
        rows * row <= old(data).len(),
        (part + 1) * frag <= row,
        at + rows * frag <= bytes.len(),
    ensures
        final(data)@ == scatter(
            old(data)@,
            bytes@,
            at as int,
            row as int,
            frag as int,
            part as int,
            rows as int,
        ),
{
    assert((part + 1) * frag == part * frag + frag && part * frag >= 0) by (nonlinear_arith)
        requires
            part >= 0,
            frag >= 0,
    ;
    spread_rows(data, bytes, at, row, part * frag, frag, rows);
    assert(data@ =~= scatter(
        old(data)@,
        bytes@,
        at as int,
        row as int,
        frag as int,
        part as int,
        rows as int,
    ));
}

/// The rows of a tensor lie within its data: `rows` rows of whole blocks take
/// no more bytes than the tensor's elements do.
proof fn lemma_rows_fit(ne0: int, ne1: int, ts: int, bs: int)
    requires
        ne0 >= 0,
        ne1 >= 0,
        ts >= 0,
        bs > 0,
    ensures
        0 <= (ne0 / bs) * ts * ne1 <= (ne0 * ne1 * ts) / bs,
        0 <= (ne0 / bs) * ts,
{
    let q = ne0 / bs;
    lemma_fundamental_div_mod(ne0, bs);
    lemma_div_pos_is_pos(ne0, bs);
    let x = q * ts * ne1;
    assert(0 <= q * ts && 0 <= x && bs * x <= ne0 * ne1 * ts) by (nonlinear_arith)
        requires
            x == q * ts * ne1,
            q >= 0,
            ts >= 0,
            ne1 >= 0,
            bs > 0,
            ne0 >= bs * q,
    ;
    lemma_div_is_ordered(bs * x, ne0 * ne1 * ts, bs);
    lemma_div_multiples_vanish(x, bs);
}

/// The shares of all parts lie within a row.
proof fn lemma_fragment_fits(row: int, n_parts: int, part: int)
    requires
        row >= 0,
        0 <= part < n_parts,
    ensures
        0 <= row / n_parts,
        (part + 1) * (row / n_parts) <= row,
{
    lemma_fundamental_div_mod(row, n_parts);
    lemma_div_pos_is_pos(row, n_parts);
    let f = row / n_parts;
    assert((part + 1) * f <= n_parts * f) by (nonlinear_arith)
        requires
            0 <= part < n_parts,
            f >= 0,
    ;
}

/// True if some part has written a fragment of the tensor.
fn any_fragment(fill: &Vec<PartFill>) -> (r: bool)
    ensures
        r == has_fragment(fill@),
{
    let mut q: usize = 0;
    while q < fill.len()
        invariant
            q <= fill.len(),
            forall|k: int| 0 <= k < q ==> fill@[k] != PartFill::Fragment,
        decreases fill.len() - q,
    {
        if fill[q] == PartFill::Fragment {
            return true;
        }
        q = q + 1;
    }
    false
}

/// True if the entry's element count and shape agree with the tensor's.
fn check_shape(tensor: &Tensor, h: &EntryHeader, n_parts: usize) -> (r: bool)
    requires
        tensor.ne0 <= 0x2_0000_0000,
        tensor.ne1 <= 0x2_0000_0000,
        n_parts >= 1,
    ensures
        r == shape_agrees(tensor@, h@, n_parts as int),
{
    assert(tensor.ne0 * tensor.ne1 <= 0x2_0000_0000 * 0x2_0000_0000) by (nonlinear_arith)
        requires
            0 <= tensor.ne0 <= 0x2_0000_0000,
            0 <= tensor.ne1 <= 0x2_0000_0000,
    ;
    assert(-0x8000_0000 * 0x8000_0000 <= h.ne0 * h.ne1 <= 0x8000_0000 * 0x8000_0000)
        by (nonlinear_arith)
        requires
            -0x8000_0000 <= h.ne0 <= 0x8000_0000,
            -0x8000_0000 <= h.ne1 <= 0x8000_0000,
    ;
    let have: u128 = (tensor.ne0 as u128) * (tensor.ne1 as u128);
    let want: i64 = (h.ne0 as i64) * (h.ne1 as i64);
    if want < 0 || h.ne0 < 0 || h.ne1 < 0 {
        proof {
            lemma_div_pos_is_pos(tensor.ne0 * tensor.ne1, n_parts as int);
            lemma_div_pos_is_pos(tensor.ne0 as int, n_parts as int);
        }
        return false;
    }
    if h.n_dims == 1 {
        have == want as u128 && tensor.ne0 == h.ne0 as u64 && tensor.ne1 == h.ne1 as u64
    } else {
        have / (n_parts as u128) == want as u128 && tensor.ne0 / (n_parts as u64) == h.ne0 as u64
            && tensor.ne1 == h.ne1 as u64
    }
}

/// Places the entry with header `h`, found in part `part`, into `tensor`.
/// Returns the offset after the entry's data. On an error the tensor is as
/// it was.
pub fn place(
    tensor: &mut Tensor,
    types: &TypeTable,
    bytes: &[u8],
    h: &EntryHeader,
    part: usize,
) -> (r: Result<usize, LoadError>)
    requires
        types.wf(),
        old(tensor)@.wf(*types),
        part < old(tensor).fill.len(),
        h.data_at <= bytes.len(),
    ensures
        match place_result(old(tensor)@, *types, bytes@, h@, part) {
            Ok((t, next)) => r is Ok && r->Ok_0 == next && final(tensor)@ == t,
            Err(e) => r is Err && r->Err_0@ == e && final(tensor)@ == old(tensor)@,
        },
        final(tensor)@.wf(*types),
        final(tensor).fill.len() == old(tensor).fill.len(),
        final(tensor).name == old(tensor).name,
        final(tensor).etype == old(tensor).etype,
        final(tensor).ne0 == old(tensor).ne0,
        final(tensor).ne1 == old(tensor).ne1,
        final(tensor).data.len() == old(tensor).data.len(),
        r is Ok ==> h.data_at <= r->Ok_0 <= bytes.len(),
{
    let n_parts = tensor.fill.len();
    let nbytes = tensor.data.len();
    let source_len = bytes.len();
    let whole = h.n_dims == 1 || n_parts == 1;
    if (h.n_dims != 1 && h.n_dims != 2) || !check_shape(tensor, h, n_parts) {
        return Err(LoadError::TensorWrongSize { tensor_name: h.name.clone(), part });
    }
    let etype = match ElementType::from_ftype(h.ftype) {
        Some(t) => t,
        None => {
            return Err(LoadError::InvalidFtype { ftype: h.ftype, part });
        },
    };
    let layout = types.layout_of(tensor.etype);
    proof {
        lemma_rows_fit(
            tensor.ne0 as int,
            tensor.ne1 as int,
            layout.type_size as int,
            layout.blck_size as int,
        );
        lemma_div_pos_is_pos(tensor.ne0 as int, layout.blck_size as int);
        assert(tensor.ne0 * tensor.ne1 * layout.type_size == (tensor.ne0 * tensor.ne1)
            * layout.type_size);
    }
    assert((tensor.ne0 / (layout.blck_size as u64)) * layout.type_size <= 0x2_0000_0000 * 0xFFFF)
        by (nonlinear_arith)
        requires
            0 <= tensor.ne0 / (layout.blck_size as u64) <= 0x2_0000_0000,
            0 <= layout.type_size <= 0xFFFF,
    ;
    let row: u64 = (tensor.ne0 / (layout.blck_size as u64)) * (layout.type_size as u64);
    let frag: u64 = row / (n_parts as u64);
    proof {
        lemma_mul_bound(tensor.ne1 as int, row as int, 0x2_0000_0000, 0x1_FFFE_0000_0000);
        assert(row * tensor.ne1 == tensor.ne1 * row) by (nonlinear_arith);
    }
    let even = tensor.ne0 % (n_parts as u64) == 0 && row % (n_parts as u64) == 0 && (
    tensor.ne1 as u128) * (row as u128) == nbytes as u128;
    if !whole && !even {
        return Err(LoadError::TensorWrongSize { tensor_name: h.name.clone(), part });
    }
    assert(0 <= h.ne0 * h.ne1 <= 0x8000_0000 * 0x8000_0000) by (nonlinear_arith)
        requires
            0 <= h.ne0 <= 0x8000_0000,
            0 <= h.ne1 <= 0x8000_0000,
    ;
    let nelements: u128 = (h.ne0 as u128) * (h.ne1 as u128);
    let size = types.layout_of(etype).storage_bytes(nelements);
    let share: usize = if whole {
        nbytes
    } else {
        nbytes / n_parts
    };
    if size != share as u128 {
        return Err(LoadError::TensorWrongSize { tensor_name: h.name.clone(), part });
    }
    let allowed = tensor.fill[part] == PartFill::Untouched && (if whole {
        part != 0 || !any_fragment(&tensor.fill)
    } else {
        tensor.fill[0] != PartFill::Whole
    });
    if !allowed {
        return Err(LoadError::TensorWrongSize { tensor_name: h.name.clone(), part });
    }
    proof {
        lemma_fragment_fits(row as int, n_parts as int, part as int);
        assert(0 <= tensor.ne1 * frag <= tensor.ne1 * row) by (nonlinear_arith)
            requires
                0 <= frag <= row,
                0 <= tensor.ne1,
        ;
        assert(row * tensor.ne1 == tensor.ne1 * row) by (nonlinear_arith);
    }
    let consumed: usize = if whole {
        nbytes
    } else {
        (tensor.ne1 * frag) as usize
    };
    let skipped = whole && part != 0;
    if consumed > source_len - h.data_at && !skipped {
        return Err(LoadError::IO);
    }
    let next = if consumed > source_len - h.data_at {
        source_len
    } else {
        h.data_at + consumed
    };
    let ghost before = tensor@;
    assert(row == before.row_size(*types));
    assert(frag == before.row_size(*types) / (n_parts as int));
    if whole {
        if part == 0 {
            tensor.data = slice_to_vec(slice_subrange(bytes, h.data_at, next));
        }
        tensor.fill[part] = PartFill::Whole;
        tensor.origin[part] = h.data_at;
    } else {
        if tensor.ne1 > 0 && row > 0 {
            assert(row <= tensor.ne1 * row && tensor.ne1 <= tensor.ne1 * row) by (nonlinear_arith)
                requires
                    tensor.ne1 >= 1,
                    row >= 1,
            ;
            scatter_rows(
                &mut tensor.data,
                bytes,
                h.data_at,
                row as usize,
                frag as usize,
                part,
                tensor.ne1 as usize,
            );
        } else {
            proof {
                let same = scatter(
                    tensor.data@,
                    bytes@,
                    h.data_at as int,
                    row as int,
                    frag as int,
                    part as int,
                    tensor.ne1 as int,
                );
                assert forall|j: int| 0 <= j < tensor.data@.len() implies tensor.data@[j]
                    == same[j] by {
                    if row > 0 {
                        lemma_div_pos_is_pos(j, row as int);
                    }
                }
                assert(tensor.data@ =~= same);
            }
        }
        tensor.fill[part] = PartFill::Fragment;
        tensor.origin[part] = h.data_at;
    }
    proof {
        let expected = place_result(before, *types, bytes@, h@, part);
        assert(expected is Ok);
        assert(expected->Ok_0.1 == next);
        assert(tensor@.fill =~= expected->Ok_0.0.fill);
        assert(tensor@.origin =~= expected->Ok_0.0.origin);
        assert(tensor@.data =~= expected->Ok_0.0.data);
        assert(tensor@ == expected->Ok_0.0);
    }
    Ok(next)
}

} // verus!
