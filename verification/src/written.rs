//! Where the bytes of a loaded model come from.
//!
//! Every placement keeps what earlier placements put into a tensor, so at the
//! end of a load each byte of each tensor is the byte of a part's image that
//! belongs there.

use vstd::prelude::*;
use vstd::arithmetic::div_mod::{lemma_div_pos_is_pos, lemma_fundamental_div_mod};
use crate::element::{ElementType, TypeTable};
use crate::entry::{entry_header_at, EntryHeaderView};
use crate::hparams::Hyperparameters;
use crate::laws::{lemma_fragments_tile, part_of_column};
use crate::loader::{
    blank_tensors,
    entry_step,
    lemma_step_advances,
    load_result,
    part_from,
    parts_from,
    LoadProgress,
};
use crate::model::{declarable, declared_bytes};
use crate::tensor::{all_complete, declared_shape, declared_type};
use crate::placement::{entry_is_whole, has_fragment, place_result};
use crate::tensor::{first_named, is_first_named, PartFill, TensorView};

verus! {

/// Every tensor has the size of its shape and one mark per part.
pub open spec fn placeable(tensors: Seq<TensorView>, types: TypeTable, n_parts: int) -> bool {
    forall|idx: int|
        0 <= idx < tensors.len() ==> (#[trigger] tensors[idx]).wf(types) && tensors[idx].fill.len()
            == n_parts
}

/// What the parts have placed so far is in the data of every tensor.
pub open spec fn all_sourced(tensors: Seq<TensorView>, types: TypeTable, images: Seq<Seq<u8>>) -> bool {
    forall|idx: int| 0 <= idx < tensors.len() ==> (#[trigger] tensors[idx]).sourced(types, images)
}

/// No image is longer than the machine can address.
pub open spec fn addressable(images: Seq<Seq<u8>>) -> bool {
    forall|p: int| 0 <= p < images.len() ==> (#[trigger] images[p]).len() <= usize::MAX
}

/// The shares of two parts of a row do not meet.
proof fn lemma_shares_apart(frag: int, p: int, q: int, c: int)
    requires
        frag >= 0,
        0 <= p,
        0 <= q,
        p != q,
        p * frag <= c < (p + 1) * frag,
    ensures
        !(q * frag <= c < (q + 1) * frag),
{
    if p < q {
        assert((p + 1) * frag <= q * frag) by (nonlinear_arith)
            requires
                p + 1 <= q,
                frag >= 0,
        ;
    } else {
        assert((q + 1) * frag <= p * frag) by (nonlinear_arith)
            requires
                q + 1 <= p,
                frag >= 0,
        ;
    }
}

/// A byte of the data lies in one of its rows.
proof fn lemma_in_a_row(j: int, row: int, rows: int)
    requires
        0 <= j < rows * row,
        row >= 0,
    ensures
        row > 0,
        0 <= j / row < rows,
{
    assert(row > 0) by (nonlinear_arith)
        requires
            0 <= j < rows * row,
            row >= 0,
    ;
    lemma_fundamental_div_mod(j, row);
    lemma_div_pos_is_pos(j, row);
    assert(j / row < rows) by (nonlinear_arith)
        requires
            j == row * (j / row) + j % row,
            0 <= j % row,
            j < rows * row,
            row > 0,
    ;
}

/// A placement keeps what was placed before, and what it places is in the
/// data afterwards.
pub proof fn lemma_place_keeps_sources(
    t: TensorView,
    types: TypeTable,
    bytes: Seq<u8>,
    h: EntryHeaderView,
    part: usize,
    images: Seq<Seq<u8>>,
)
    requires
        types.wf(),
        t.wf(types),
        part < t.fill.len(),
        t.sourced(types, images),
        images[part as int] == bytes,
        bytes.len() <= usize::MAX,
        place_result(t, types, bytes, h, part) is Ok,
    ensures
        place_result(t, types, bytes, h, part)->Ok_0.0.wf(types),
        place_result(t, types, bytes, h, part)->Ok_0.0.fill.len() == t.fill.len(),
        place_result(t, types, bytes, h, part)->Ok_0.0.name == t.name,
        place_result(t, types, bytes, h, part)->Ok_0.0.sourced(types, images),
{
    let after = place_result(t, types, bytes, h, part)->Ok_0.0;
    let n = t.fill.len() as int;
    let whole = entry_is_whole(h, n);
    let row = t.row_size(types);
    let frag = t.fragment_size(types);
    assert(after.row_size(types) == row);
    assert(after.fragment_size(types) == frag);
    assert(after.splits_evenly(types) == t.splits_evenly(types));
    if whole {
        if part == 0 {
            assert forall|p: int| 0 <= p < n implies t.fill[p] != PartFill::Fragment by {
                if t.fill[p] == PartFill::Fragment {
                    assert(has_fragment(t.fill));
                }
            }
        } else {
            assert forall|p: int|
                0 <= p < n && #[trigger] after.fill[p] == PartFill::Fragment implies {
                &&& after.splits_evenly(types)
                &&& forall|j: int|
                    after.in_share(types, p, j) ==> #[trigger] after.data[j] == after.fragment_byte(
                        types,
                        images[p],
                        p,
                        j,
                    )
            } by {
                assert(t.fill[p] == PartFill::Fragment);
                assert forall|j: int| after.in_share(types, p, j) implies #[trigger] after.data[j]
                    == after.fragment_byte(types, images[p], p, j) by {
                    assert(t.in_share(types, p, j));
                    assert(t.data[j] == t.fragment_byte(types, images[p], p, j));
                }
            }
        }
    } else {
        let rows = h.ne1 as int;
        assert(rows == t.ne1);
        assert(t.splits_evenly(types));
        assert(row >= 0) by {
            lemma_div_pos_is_pos(t.ne0 as int, types.layout(t.etype).blck_size as int);
            assert((t.ne0 as int / (types.layout(t.etype).blck_size as int)) * types.layout(
                t.etype,
            ).type_size >= 0) by (nonlinear_arith)
                requires
                    t.ne0 as int / (types.layout(t.etype).blck_size as int) >= 0,
                    types.layout(t.etype).type_size >= 0,
            ;
        }
        lemma_div_pos_is_pos(row, n);
        assert forall|p: int|
            0 <= p < n && #[trigger] after.fill[p] == PartFill::Fragment implies {
            &&& after.splits_evenly(types)
            &&& forall|j: int|
                after.in_share(types, p, j) ==> #[trigger] after.data[j] == after.fragment_byte(
                    types,
                    images[p],
                    p,
                    j,
                )
        } by {
            assert forall|j: int| after.in_share(types, p, j) implies #[trigger] after.data[j]
                == after.fragment_byte(types, images[p], p, j) by {
                assert(rows * row == t.ne1 * row) by (nonlinear_arith)
                    requires
                        rows == t.ne1,
                ;
                lemma_in_a_row(j, row, rows);
                if p == part {
                    assert(after.data[j] == bytes[h.data_at + (j / row) * frag + (j % row - part
                        * frag)]);
                } else {
                    assert(t.fill[p] == PartFill::Fragment);
                    lemma_shares_apart(frag, p, part as int, j % row);
                    assert(after.data[j] == t.data[j]);
                    assert(t.in_share(types, p, j));
                    assert(t.data[j] == t.fragment_byte(types, images[p], p, j));
                }
            }
        }
    }
}

/// Placing an entry keeps what was placed before in every tensor.
pub proof fn lemma_step_keeps_sources(
    tensors: Seq<TensorView>,
    types: TypeTable,
    bytes: Seq<u8>,
    pos: int,
    part: usize,
    images: Seq<Seq<u8>>,
)
    requires
        types.wf(),
        placeable(tensors, types, images.len() as int),
        all_sourced(tensors, types, images),
        part < images.len(),
        images[part as int] == bytes,
        bytes.len() <= usize::MAX,
        entry_step(tensors, types, bytes, pos, part) is Ok,
    ensures
        placeable(entry_step(tensors, types, bytes, pos, part)->Ok_0.0, types, images.len() as int),
        all_sourced(entry_step(tensors, types, bytes, pos, part)->Ok_0.0, types, images),
{
    let h = entry_header_at(bytes, pos, part)->Ok_0;
    let idx = first_named(tensors, h.name)->0;
    assert(is_first_named(tensors, h.name, idx));
    let t = tensors[idx];
    lemma_place_keeps_sources(t, types, bytes, h, part, images);
    let placed = entry_step(tensors, types, bytes, pos, part)->Ok_0.0;
    assert forall|i: int| 0 <= i < placed.len() implies (#[trigger] placed[i]).wf(types)
        && placed[i].fill.len() == images.len() && placed[i].sourced(types, images) by {
        if i != idx {
            assert(placed[i] == tensors[i]);
        }
    }
}

/// Reading a part keeps what was placed before in every tensor.
pub proof fn lemma_part_keeps_sources(
    tensors: Seq<TensorView>,
    types: TypeTable,
    bytes: Seq<u8>,
    pos: int,
    part: usize,
    count: int,
    size: int,
    events: Seq<LoadProgress>,
    images: Seq<Seq<u8>>,
)
    requires
        types.wf(),
        placeable(tensors, types, images.len() as int),
        all_sourced(tensors, types, images),
        part < images.len(),
        images[part as int] == bytes,
        bytes.len() <= usize::MAX,
        part_from(tensors, types, bytes, pos, part, count, size, events).1 is Ok,
    ensures
        placeable(
            part_from(tensors, types, bytes, pos, part, count, size, events).1->Ok_0,
            types,
            images.len() as int,
        ),
        all_sourced(
            part_from(tensors, types, bytes, pos, part, count, size, events).1->Ok_0,
            types,
            images,
        ),
    decreases bytes.len() - pos,
{
    if pos < bytes.len() {
        let step = entry_step(tensors, types, bytes, pos, part);
        assert(step is Ok);
        lemma_step_advances(tensors, types, bytes, pos, part);
        lemma_step_keeps_sources(tensors, types, bytes, pos, part, images);
        lemma_part_keeps_sources(
            step->Ok_0.0,
            types,
            bytes,
            step->Ok_0.1,
            part,
            count + 1,
            size + step->Ok_0.2,
            events.push(
                LoadProgress::PartTensorLoaded {
                    part,
                    current_tensor: (count + 1) as usize,
                    tensor_count: tensors.len() as usize,
                },
            ),
            images,
        );
    }
}

/// The images of the parts.
pub open spec fn images_of(parts: Seq<Vec<u8>>) -> Seq<Seq<u8>> {
    Seq::new(parts.len(), |p: int| parts[p]@)
}

/// Reading the parts keeps what was placed before in every tensor.
pub proof fn lemma_parts_keep_sources(
    tensors: Seq<TensorView>,
    types: TypeTable,
    parts: Seq<Vec<u8>>,
    offset: int,
    part: int,
    events: Seq<LoadProgress>,
)
    requires
        types.wf(),
        0 <= part,
        parts.len() <= usize::MAX,
        placeable(tensors, types, parts.len() as int),
        all_sourced(tensors, types, images_of(parts)),
        parts_from(tensors, types, parts, offset, part, events).1 is Ok,
    ensures
        placeable(
            parts_from(tensors, types, parts, offset, part, events).1->Ok_0,
            types,
            parts.len() as int,
        ),
        all_sourced(
            parts_from(tensors, types, parts, offset, part, events).1->Ok_0,
            types,
            images_of(parts),
        ),
    decreases parts.len() - part,
{
    if part < parts.len() {
        let images = images_of(parts);
        let announced = events.push(
            LoadProgress::PartLoading {
                part: part as usize,
                current_part: (part + 1) as usize,
                total_parts: parts.len() as usize,
            },
        );
        let read = part_from(tensors, types, parts[part]@, offset, part as usize, 0, 0, announced);
        assert(read.1 is Ok);
        assert(parts[part]@.len() == parts[part].len());
        lemma_part_keeps_sources(
            tensors,
            types,
            parts[part]@,
            offset,
            part as usize,
            0,
            0,
            announced,
            images,
        );
        lemma_parts_keep_sources(read.1->Ok_0, types, parts, offset, part + 1, read.0);
    }
}

/// The tensors that a model declares are placeable, and nothing is placed
/// in them yet.
pub proof fn lemma_blank_is_sourced(
    h: Hyperparameters,
    wtype: ElementType,
    types: TypeTable,
    images: Seq<Seq<u8>>,
)
    requires
        types.wf(),
        declarable(h, wtype, types),
    ensures
        placeable(blank_tensors(h, wtype, types, images.len() as int), types, images.len() as int),
        all_sourced(blank_tensors(h, wtype, types, images.len() as int), types, images),
{
    let blank = blank_tensors(h, wtype, types, images.len() as int);
    assert forall|idx: int| 0 <= idx < blank.len() implies (#[trigger] blank[idx]).wf(types)
        && blank[idx].fill.len() == images.len() && blank[idx].sourced(types, images) by {
        let shape = declared_shape(h, idx);
        let layout = types.layout(declared_type(wtype, idx));
        assert(0 <= shape.0 <= 0x2_0000_0000 && 0 <= shape.1 <= 0x2_0000_0000);
        assert(0 <= shape.0 * shape.1 && 0 <= shape.0 * shape.1 * layout.type_size)
            by (nonlinear_arith)
            requires
                0 <= shape.0,
                0 <= shape.1,
                0 <= layout.type_size,
        ;
        lemma_div_pos_is_pos(shape.0 * shape.1 * layout.type_size, layout.blck_size as int);
        assert(declared_bytes(h, wtype, types, idx) >= 0);
    }
}

/// After a load that ends well, every tensor holds all of its data, and what
/// it holds is what the parts placed in it.
pub proof fn lemma_loaded_tensors_are_sourced(
    parts: Seq<Vec<u8>>,
    n_ctx: i32,
    types: TypeTable,
    earlier: Seq<LoadProgress>,
)
    requires
        types.wf(),
        parts.len() <= usize::MAX,
        load_result(parts, n_ctx, types, earlier).result is Ok,
    ensures
        all_complete(load_result(parts, n_ctx, types, earlier).result->Ok_0.tensors),
        placeable(
            load_result(parts, n_ctx, types, earlier).result->Ok_0.tensors,
            types,
            parts.len() as int,
        ),
        all_sourced(
            load_result(parts, n_ctx, types, earlier).result->Ok_0.tensors,
            types,
            images_of(parts),
        ),
{
    let outcome = load_result(parts, n_ctx, types, earlier).result->Ok_0;
    let h = outcome.hparams;
    let wtype = h.weight_type()->0;
    let images = images_of(parts);
    lemma_blank_is_sourced(h, wtype, types, images);
    let blank = blank_tensors(h, wtype, types, parts.len() as int);
    assert(exists|offset: int, sized: Seq<LoadProgress>|
        (#[trigger] parts_from(blank, types, parts, offset, 0, sized)).1 == Ok::<
            Seq<TensorView>,
            crate::error::LoadFailure,
        >(outcome.tensors));
    let (offset, sized) = choose|offset: int, sized: Seq<LoadProgress>|
        (#[trigger] parts_from(blank, types, parts, offset, 0, sized)).1 == Ok::<
            Seq<TensorView>,
            crate::error::LoadFailure,
        >(outcome.tensors);
    lemma_parts_keep_sources(blank, types, parts, offset, 0, sized);
}

/// The byte of the parts' images that belongs at offset `j` of the data of
/// a tensor that holds all of its data: the byte of part 0 at that offset of
/// the entry's data where part 0 wrote the tensor whole; else, in row
/// `j / row_size` at column `j % row_size`, the byte of the part whose share
/// of the row holds the column, taken from that part's fragment of the row.
pub open spec fn source_of(t: TensorView, types: TypeTable, images: Seq<Seq<u8>>, j: int) -> u8 {
    if t.fill[0] == PartFill::Whole {
        images[0][t.origin[0] + j]
    } else {
        let part = part_of_column(t.row_size(types), t.fill.len() as int, j % t.row_size(types));
        t.fragment_byte(types, images[part], part, j)
    }
}

/// In a tensor that holds all of its data no byte is left as it was: every
/// byte is the byte of a part's image that belongs there.
pub proof fn lemma_complete_is_written(
    t: TensorView,
    types: TypeTable,
    images: Seq<Seq<u8>>,
    j: int,
)
    requires
        types.wf(),
        t.wf(types),
        t.complete(),
        t.sourced(types, images),
        0 <= j < t.data.len(),
    ensures
        t.data[j] == source_of(t, types, images, j),
{
    if t.fill[0] != PartFill::Whole {
        let n = t.fill.len() as int;
        let row = t.row_size(types);
        assert(t.fill[0] == PartFill::Fragment);
        assert(t.splits_evenly(types));
        assert(row >= 0) by {
            lemma_div_pos_is_pos(t.ne0 as int, types.layout(t.etype).blck_size as int);
            assert((t.ne0 as int / (types.layout(t.etype).blck_size as int)) * types.layout(
                t.etype,
            ).type_size >= 0) by (nonlinear_arith)
                requires
                    t.ne0 as int / (types.layout(t.etype).blck_size as int) >= 0,
                    types.layout(t.etype).type_size >= 0,
            ;
        }
        lemma_in_a_row(j, row, t.ne1 as int);
        lemma_fundamental_div_mod(j, row);
        lemma_fundamental_div_mod(row, n);
        assert(row >= n) by (nonlinear_arith)
            requires
                row == n * (row / n) + row % n,
                row % n == 0,
                row > 0,
                n >= 1,
        ;
        let part = part_of_column(row, n, j % row);
        lemma_fragments_tile(row, n, j % row, 0);
        lemma_fragments_tile(row, n, j % row, part);
        assert(t.in_share(types, part, j));
        assert(t.fill[part] == PartFill::Fragment);
    }
}

/// After a load that ends well, every byte of every tensor is the byte of a
/// part's image that belongs there.
pub proof fn lemma_loaded_model_is_written(
    parts: Seq<Vec<u8>>,
    n_ctx: i32,
    types: TypeTable,
    earlier: Seq<LoadProgress>,
    idx: int,
    j: int,
)
    requires
        types.wf(),
        parts.len() <= usize::MAX,
        load_result(parts, n_ctx, types, earlier).result is Ok,
        0 <= idx < load_result(parts, n_ctx, types, earlier).result->Ok_0.tensors.len(),
        0 <= j < load_result(parts, n_ctx, types, earlier).result->Ok_0.tensors[idx].data.len(),
    ensures
        load_result(parts, n_ctx, types, earlier).result->Ok_0.tensors[idx].data[j] == source_of(
            load_result(parts, n_ctx, types, earlier).result->Ok_0.tensors[idx],
            types,
            images_of(parts),
            j,
        ),
{
    lemma_loaded_tensors_are_sourced(parts, n_ctx, types, earlier);
    let t = load_result(parts, n_ctx, types, earlier).result->Ok_0.tensors[idx];
    lemma_complete_is_written(t, types, images_of(parts), j);
}

} // verus!
