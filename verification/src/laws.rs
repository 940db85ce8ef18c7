//! Laws that relate several operations.

use vstd::prelude::*;
use vstd::arithmetic::div_mod::{
    lemma_div_pos_is_pos,
    lemma_fundamental_div_mod,
    lemma_fundamental_div_mod_converse,
};
use crate::codec::{
    fields_of,
    lemma_fields_round_trip,
    lemma_record_round_trip,
    parsed,
    record_image,
    snapshot_with,
};
use crate::hparams::Hyperparameters;
use crate::placement::scatter;
use crate::model::Model;
use crate::tensor::{declared_name, first_named, is_first_named, layer_suffix, views};
use crate::text::{decimal, is_digit, lemma_decimal_injective, lemma_decimal_value};
use crate::session::SessionView;
use crate::snapshot::{restored, snapshot_of};

verus! {

/// Restoring the snapshot of a session gives the session back, but for the
/// measured need per token, which starts at zero again. The restored session
/// has the same memories, positions, ring and logits, so the next token
/// chosen from it is the one that the session itself would choose.
pub proof fn lemma_snapshot_round_trip(h: Hyperparameters, s: SessionView)
    requires
        s.wf(h),
    ensures
        restored(h, snapshot_of(s)) == Ok::<SessionView, crate::error::SnapshotError>(
            SessionView { mem_per_token: 0, ..s },
        ),
        restored(h, snapshot_of(s))->Ok_0.wf(h),
{
    let again = restored(h, snapshot_of(s))->Ok_0;
    assert(again.params == s.params);
}

/// A session whose snapshot is written to bytes, read back from them,
/// whatever follows them, and restored, is the session again, but for the
/// measured need per token.
pub proof fn lemma_written_snapshot_restores(h: Hyperparameters, s: SessionView, rest: Seq<u8>)
    requires
        s.wf(h),
        s.memory_k.len() <= usize::MAX,
        s.memory_v.len() <= usize::MAX,
        s.last_n_tokens.len() <= usize::MAX,
        s.last_logits.len() <= usize::MAX,
    ensures
        parsed(record_image(fields_of(snapshot_of(s))) + rest) == Some(fields_of(snapshot_of(s))),
        restored(h, snapshot_with(fields_of(snapshot_of(s)))) == Ok::<
            SessionView,
            crate::error::SnapshotError,
        >(SessionView { mem_per_token: 0, ..s }),
{
    let snapshot = snapshot_of(s);
    lemma_fields_round_trip(snapshot);
    lemma_record_round_trip(fields_of(snapshot), rest);
    lemma_snapshot_round_trip(h, s);
}

/// The part whose fragment holds column `c` of a row of `row` bytes that is
/// split over `n_parts` parts.
pub open spec fn part_of_column(row: int, n_parts: int, c: int) -> int {
    c / (row / n_parts)
}

/// Where the rows of a tensor divide evenly among the parts, the fragments
/// tile every row: each byte of each row lies in the fragment of exactly one
/// part. So when every part has placed its fragments, no byte of the rows is
/// left unwritten and none is written twice.
pub proof fn lemma_fragments_tile(row: int, n_parts: int, c: int, q: int)
    requires
        n_parts >= 1,
        row >= n_parts,
        row % n_parts == 0,
        0 <= c < row,
        0 <= q < n_parts,
    ensures
        0 <= part_of_column(row, n_parts, c) < n_parts,
        (q * (row / n_parts) <= c < (q + 1) * (row / n_parts)) <==> q == part_of_column(
            row,
            n_parts,
            c,
        ),
{
    let frag = row / n_parts;
    lemma_fundamental_div_mod(row, n_parts);
    assert(row == n_parts * frag);
    assert(frag >= 1) by (nonlinear_arith)
        requires
            row == n_parts * frag,
            row >= n_parts,
            n_parts >= 1,
    ;
    let p = c / frag;
    lemma_fundamental_div_mod(c, frag);
    lemma_div_pos_is_pos(c, frag);
    assert(p < n_parts) by (nonlinear_arith)
        requires
            c == frag * p + c % frag,
            0 <= c % frag,
            c < n_parts * frag,
            frag >= 1,
    ;
    if q * frag <= c < (q + 1) * frag {
        assert((q + 1) * frag == q * frag + frag) by (nonlinear_arith);
        lemma_fundamental_div_mod_converse(c, frag, q, c - q * frag);
    }
    if q == p {
        assert(p * frag == frag * p && (p + 1) * frag == frag * p + frag) by (nonlinear_arith);
    }
}

/// `data` after the parts `0` to `upto - 1` have written their fragments of
/// the first `rows` rows, part `p` from offset `starts[p]` of its image
/// `images[p]`.
pub open spec fn scattered(
    data: Seq<u8>,
    images: Seq<Seq<u8>>,
    starts: Seq<int>,
    row: int,
    rows: int,
    upto: nat,
) -> Seq<u8>
    decreases upto,
{
    if upto == 0 {
        data
    } else {
        scatter(
            scattered(data, images, starts, row, rows, (upto - 1) as nat),
            images[upto - 1],
            starts[upto - 1],
            row,
            row / (images.len() as int),
            upto - 1,
            rows,
        )
    }
}

/// Where the rows of a tensor divide evenly among the parts and every part
/// has written its fragments, every row is the concatenation of the parts'
/// fragments of that row: byte `j` of the tensor, in row `j / row` at column
/// `j % row`, is the byte of the part that holds the column, taken from that
/// part's fragment of the row. No byte of the rows is left as it was.
pub proof fn lemma_parts_assemble(
    data: Seq<u8>,
    images: Seq<Seq<u8>>,
    starts: Seq<int>,
    row: int,
    rows: int,
    j: int,
)
    requires
        images.len() >= 1,
        starts.len() == images.len(),
        row >= images.len(),
        row % (images.len() as int) == 0,
        0 <= j < rows * row,
        j < data.len(),
    ensures
        scattered(data, images, starts, row, rows, images.len())[j] == ({
            let frag = row / (images.len() as int);
            let part = part_of_column(row, images.len() as int, j % row);
            images[part][starts[part] + (j / row) * frag + (j % row - part * frag)]
        }),
{
    lemma_assemble_upto(data, images, starts, row, rows, j, images.len());
    lemma_fundamental_div_mod(j, row);
    lemma_fragments_tile(row, images.len() as int, j % row, 0);
}

proof fn lemma_assemble_upto(
    data: Seq<u8>,
    images: Seq<Seq<u8>>,
    starts: Seq<int>,
    row: int,
    rows: int,
    j: int,
    upto: nat,
)
    requires
        images.len() >= 1,
        starts.len() == images.len(),
        row >= images.len(),
        row % (images.len() as int) == 0,
        0 <= j < rows * row,
        j < data.len(),
        upto <= images.len(),
    ensures
        scattered(data, images, starts, row, rows, upto).len() == data.len(),
        scattered(data, images, starts, row, rows, upto)[j] == ({
            let frag = row / (images.len() as int);
            let part = part_of_column(row, images.len() as int, j % row);
            if part < upto {
                images[part][starts[part] + (j / row) * frag + (j % row - part * frag)]
            } else {
                data[j]
            }
        }),
    decreases upto,
{
    lemma_fundamental_div_mod(j, row);
    lemma_fragments_tile(row, images.len() as int, j % row, 0);
    if upto > 0 {
        let n = images.len() as int;
        let q = upto - 1;
        lemma_assemble_upto(data, images, starts, row, rows, j, q as nat);
        lemma_fragments_tile(row, n, j % row, q);
        assert(j / row < rows) by (nonlinear_arith)
            requires
                j == row * (j / row) + j % row,
                0 <= j % row,
                j < rows * row,
                row > 0,
        ;
        let frag = row / n;
        let part = part_of_column(row, n, j % row);
        let before = scattered(data, images, starts, row, rows, q as nat);
        let after = scattered(data, images, starts, row, rows, upto);
        assert(after == scatter(before, images[q], starts[q], row, frag, q, rows));
        assert(after.len() == before.len());
        if q == part {
            assert(q * frag <= j % row < (q + 1) * frag);
            assert(after[j] == images[q][starts[q] + (j / row) * frag + (j % row - q * frag)]);
        } else {
            assert(!(q * frag <= j % row < (q + 1) * frag));
            assert(after[j] == before[j]);
        }
    }
}

/// The names of the tensors of a layer start with a full stop and differ
/// from one another.
proof fn lemma_suffixes_differ(k: int, l: int)
    requires
        0 <= k < 6,
        0 <= l < 6,
    ensures
        layer_suffix(k).len() >= 1,
        layer_suffix(k)[0] == '.',
        layer_suffix(k) == layer_suffix(l) ==> k == l,
{
    reveal_strlit(".ln_1.weight");
    reveal_strlit(".attn.Wqkv.weight");
    reveal_strlit(".attn.out_proj.weight");
    reveal_strlit(".ln_2.weight");
    reveal_strlit(".mlp.mlp_up.weight");
    reveal_strlit(".mlp.mlp_down.weight");
    if layer_suffix(k) == layer_suffix(l) && k != l {
        assert(layer_suffix(k).len() == layer_suffix(l).len());
        assert(layer_suffix(k)[4] == layer_suffix(l)[4]);
    }
}

/// A numeral followed by a name that starts with a full stop can be read in
/// one way only.
proof fn lemma_numeral_ends(a: nat, s: Seq<char>, b: nat, t: Seq<char>)
    requires
        s.len() >= 1,
        t.len() >= 1,
        s[0] == '.',
        t[0] == '.',
        decimal(a) + s == decimal(b) + t,
    ensures
        a == b,
        s == t,
{
    let da = decimal(a);
    let db = decimal(b);
    lemma_decimal_value(a);
    lemma_decimal_value(b);
    let left = da + s;
    let right = db + t;
    if da.len() < db.len() {
        assert(left[da.len() as int] == s[0]);
        assert(right[da.len() as int] == db[da.len() as int]);
        assert(is_digit(db[da.len() as int]));
    } else if db.len() < da.len() {
        assert(right[db.len() as int] == t[0]);
        assert(left[db.len() as int] == da[db.len() as int]);
        assert(is_digit(da[db.len() as int]));
    } else {
        assert(da =~= db) by {
            assert forall|i: int| 0 <= i < da.len() implies da[i] == db[i] by {
                assert(left[i] == da[i]);
                assert(right[i] == db[i]);
            }
        }
        lemma_decimal_injective(a, b);
        assert(s =~= t) by {
            assert(left.len() == right.len());
            assert forall|i: int| 0 <= i < s.len() implies s[i] == t[i] by {
                assert(left[da.len() + i] == s[i]);
                assert(right[db.len() + i] == t[i]);
            }
        }
    }
}

/// No two declared tensors bear the same name, so a tensor entry names at
/// most one of them and every declared tensor can be named.
pub proof fn lemma_declared_names_differ(i: int, j: int)
    requires
        0 <= i < j,
    ensures
        declared_name(i) != declared_name(j),
{
    reveal_strlit("transformer.wte.weight");
    reveal_strlit("transformer.ln_f.weight");
    reveal_strlit("transformer.blocks.");
    let prefix = "transformer.blocks."@;
    if j == 1 {
        assert(declared_name(i)[12] != declared_name(j)[12]);
    } else {
        let b = ((j - 2) / 6) as nat;
        let l = (j - 2) % 6;
        let tail_j = decimal(b) + layer_suffix(l);
        assert(declared_name(j) =~= prefix + tail_j);
        if i < 2 {
            assert(declared_name(j)[12] == prefix[12]);
            assert(declared_name(i)[12] != declared_name(j)[12]);
        } else {
            let a = ((i - 2) / 6) as nat;
            let k = (i - 2) % 6;
            let tail_i = decimal(a) + layer_suffix(k);
            assert(declared_name(i) =~= prefix + tail_i);
            if declared_name(i) == declared_name(j) {
                assert(tail_i =~= tail_j) by {
                    assert((prefix + tail_i).len() == (prefix + tail_j).len());
                    assert forall|x: int| 0 <= x < tail_i.len() implies tail_i[x] == tail_j[x] by {
                        assert((prefix + tail_i)[prefix.len() + x] == tail_i[x]);
                        assert((prefix + tail_j)[prefix.len() + x] == tail_j[x]);
                    }
                }
                lemma_suffixes_differ(k, l);
                lemma_suffixes_differ(l, k);
                lemma_numeral_ends(a, layer_suffix(k), b, layer_suffix(l));
            }
        }
    }
}

/// Every declared tensor of a model is the one that is found by its name:
/// no declared name is left without its tensor.
pub proof fn lemma_every_tensor_is_found(model: Model, idx: int)
    requires
        model.wf(),
        0 <= idx < model.tensors.len(),
    ensures
        first_named(views(model.tensors@), declared_name(idx)) == Some(idx),
{
    let v = views(model.tensors@);
    let name = declared_name(idx);
    assert forall|other: int| 0 <= other < v.len() implies (#[trigger] v[other]).name
        == declared_name(other) by {
        assert(model.tensors[other].declared_as(
            model.hparams,
            model.wtype,
            model.types,
            model.n_parts as int,
            other,
        ));
    }
    assert forall|other: int| 0 <= other < idx implies (#[trigger] v[other]).name != name by {
        lemma_declared_names_differ(other, idx);
    }
    assert(is_first_named(v, name, idx));
    let found = first_named(v, name)->0;
    assert(is_first_named(v, name, found));
    if found < idx {
        assert(v[found].name != name);
    }
    if idx < found {
        assert(v[idx].name != name);
    }
}

} // verus!
