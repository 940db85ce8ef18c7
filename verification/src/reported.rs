//! What a load reports of the tensors that it places.
//!
//! Every placed entry marks a tensor that its part had not touched, so the
//! entries of a part are as many as the tensors that the part has marked;
//! each is reported with its number, and the end of the part with their
//! count.

use vstd::prelude::*;
use crate::element::TypeTable;
use crate::entry::entry_header_at;
use crate::loader::{
    blank_tensors,
    entry_step,
    lemma_step_advances,
    load_result,
    part_from,
    parts_from,
    LoadProgress,
};
use crate::tensor::{declared_count, first_named, is_first_named, PartFill, TensorView};
use crate::written::{
    all_sourced,
    images_of,
    lemma_blank_is_sourced,
    lemma_step_keeps_sources,
    placeable,
};

verus! {

/// How many of the tensors part `part` has touched.
pub open spec fn marked(tensors: Seq<TensorView>, part: int) -> nat
    decreases tensors.len(),
{
    if tensors.len() == 0 {
        0
    } else {
        marked(tensors.drop_last(), part) + if tensors.last().fill[part] != PartFill::Untouched {
            1nat
        } else {
            0nat
        }
    }
}

/// Marking a tensor that was not touched adds one to the count.
proof fn lemma_mark_added(tensors: Seq<TensorView>, idx: int, marked_one: TensorView, part: int)
    requires
        0 <= idx < tensors.len(),
        tensors[idx].fill[part] == PartFill::Untouched,
        marked_one.fill[part] != PartFill::Untouched,
    ensures
        marked(tensors.update(idx, marked_one), part) == marked(tensors, part) + 1,
    decreases tensors.len(),
{
    let after = tensors.update(idx, marked_one);
    if idx == tensors.len() - 1 {
        assert(after.drop_last() =~= tensors.drop_last());
    } else {
        assert(after.drop_last() =~= tensors.drop_last().update(idx, marked_one));
        lemma_mark_added(tensors.drop_last(), idx, marked_one, part);
    }
}

/// Where a part has touched every tensor, the count is that of the tensors;
/// it is zero where it has touched none.
proof fn lemma_marked_all_or_none(tensors: Seq<TensorView>, part: int)
    ensures
        (forall|idx: int|
            0 <= idx < tensors.len() ==> (#[trigger] tensors[idx]).fill[part]
                != PartFill::Untouched) ==> marked(tensors, part) == tensors.len(),
        (forall|idx: int|
            0 <= idx < tensors.len() ==> (#[trigger] tensors[idx]).fill[part]
                == PartFill::Untouched) ==> marked(tensors, part) == 0,
    decreases tensors.len(),
{
    if tensors.len() > 0 {
        let earlier = tensors.drop_last();
        lemma_marked_all_or_none(earlier, part);
        assert forall|idx: int| 0 <= idx < earlier.len() implies earlier[idx] == tensors[idx] by {}
        if forall|idx: int|
            0 <= idx < tensors.len() ==> (#[trigger] tensors[idx]).fill[part]
                != PartFill::Untouched {
            assert forall|idx: int| 0 <= idx < earlier.len() implies (#[trigger] earlier[idx]).fill[part]
                != PartFill::Untouched by {
                assert(tensors[idx].fill[part] != PartFill::Untouched);
            }
            assert(tensors[tensors.len() - 1].fill[part] != PartFill::Untouched);
        }
        if forall|idx: int|
            0 <= idx < tensors.len() ==> (#[trigger] tensors[idx]).fill[part]
                == PartFill::Untouched {
            assert forall|idx: int| 0 <= idx < earlier.len() implies (#[trigger] earlier[idx]).fill[part]
                == PartFill::Untouched by {
                assert(tensors[idx].fill[part] == PartFill::Untouched);
            }
            assert(tensors[tensors.len() - 1].fill[part] == PartFill::Untouched);
        }
    }
}

/// A placed entry marks one more tensor for its part.
proof fn lemma_step_marks_one(
    tensors: Seq<TensorView>,
    types: TypeTable,
    bytes: Seq<u8>,
    pos: int,
    part: usize,
)
    requires
        forall|idx: int| 0 <= idx < tensors.len() ==> part < (#[trigger] tensors[idx]).fill.len(),
        entry_step(tensors, types, bytes, pos, part) is Ok,
    ensures
        marked(entry_step(tensors, types, bytes, pos, part)->Ok_0.0, part as int) == marked(
            tensors,
            part as int,
        ) + 1,
{
    let h = entry_header_at(bytes, pos, part)->Ok_0;
    let idx = first_named(tensors, h.name)->0;
    assert(is_first_named(tensors, h.name, idx));
    let placed = entry_step(tensors, types, bytes, pos, part)->Ok_0.0;
    assert(part < tensors[idx].fill.len());
    lemma_mark_added(tensors, idx, placed[idx], part as int);
    assert(placed =~= tensors.update(idx, placed[idx]));
}

/// The events that the reading of a part adds where it ends well: one
/// `PartTensorLoaded` for each entry, numbered from `count + 1` on, and
/// `PartLoaded` with their count. The entries are as many as the tensors
/// that the part has marked in addition.
pub proof fn lemma_part_reports_its_entries(
    tensors: Seq<TensorView>,
    types: TypeTable,
    bytes: Seq<u8>,
    pos: int,
    part: usize,
    count: int,
    size: int,
    events: Seq<LoadProgress>,
    images: Seq<Seq<u8>>,
)
    requires
        types.wf(),
        placeable(tensors, types, images.len() as int),
        all_sourced(tensors, types, images),
        part < images.len(),
        images[part as int] == bytes,
        bytes.len() <= usize::MAX,
        part_from(tensors, types, bytes, pos, part, count, size, events).1 is Ok,
    ensures
        ({
            let read = part_from(tensors, types, bytes, pos, part, count, size, events);
            let placed = marked(read.1->Ok_0, part as int) - marked(tensors, part as int);
            &&& placed >= 0
            &&& read.1->Ok_0.len() == tensors.len()
            &&& read.0.len() == events.len() + placed + 1
            &&& read.0.subrange(0, events.len() as int) == events
            &&& forall|i: int|
                0 <= i < placed ==> #[trigger] read.0[events.len() + i]
                    == (LoadProgress::PartTensorLoaded {
                    part,
                    current_tensor: (count + i + 1) as usize,
                    tensor_count: tensors.len() as usize,
                })
            &&& read.0.last() matches LoadProgress::PartLoaded { part: p, byte_size, tensor_count }
                && p == part && tensor_count == (count + placed) as usize
        }),
    decreases bytes.len() - pos,
{
    let read = part_from(tensors, types, bytes, pos, part, count, size, events);
    if pos >= bytes.len() {
        assert(read.0.subrange(0, events.len() as int) =~= events);
    } else {
        let step = entry_step(tensors, types, bytes, pos, part);
        assert(step is Ok);
        lemma_step_advances(tensors, types, bytes, pos, part);
        lemma_step_keeps_sources(tensors, types, bytes, pos, part, images);
        lemma_step_marks_one(tensors, types, bytes, pos, part);
        let told = events.push(
            LoadProgress::PartTensorLoaded {
                part,
                current_tensor: (count + 1) as usize,
                tensor_count: tensors.len() as usize,
            },
        );
        lemma_part_reports_its_entries(
            step->Ok_0.0,
            types,
            bytes,
            step->Ok_0.1,
            part,
            count + 1,
            size + step->Ok_0.2,
            told,
            images,
        );
        let placed = marked(read.1->Ok_0, part as int) - marked(tensors, part as int);
        assert(read.0.subrange(0, events.len() as int) =~= events) by {
            assert(read.0.subrange(0, told.len() as int) == told);
            assert forall|i: int| 0 <= i < events.len() implies read.0[i] == events[i] by {
                assert(read.0.subrange(0, told.len() as int)[i] == told[i]);
            }
        }
        assert forall|i: int| 0 <= i < placed implies #[trigger] read.0[events.len() + i]
            == (LoadProgress::PartTensorLoaded {
            part,
            current_tensor: (count + i + 1) as usize,
            tensor_count: tensors.len() as usize,
        }) by {
            if i == 0 {
                assert(read.0.subrange(0, told.len() as int)[events.len() as int] == told[events.len() as int]);
            } else {
                assert(read.0[told.len() + (i - 1)] == (LoadProgress::PartTensorLoaded {
                    part,
                    current_tensor: (count + 1 + (i - 1) + 1) as usize,
                    tensor_count: step->Ok_0.0.len() as usize,
                }));
            }
        }
    }
}

/// A model in one file that loads well reports every declared tensor: the
/// progress ends with one `PartTensorLoaded` event for each of the
/// `2 + 6 * n_layers` tensors, numbered from 1 on, and `PartLoaded` with
/// their count.
pub proof fn lemma_single_file_reports_every_tensor(
    parts: Seq<Vec<u8>>,
    n_ctx: i32,
    types: TypeTable,
    earlier: Seq<LoadProgress>,
)
    requires
        types.wf(),
        parts.len() == 1,
        load_result(parts, n_ctx, types, earlier).result is Ok,
    ensures
        ({
            let run = load_result(parts, n_ctx, types, earlier);
            let n = declared_count(run.result->Ok_0.hparams);
            let first = run.progress.len() - 1 - n;
            &&& n == run.result->Ok_0.tensors.len()
            &&& first >= 0
            &&& forall|i: int|
                0 <= i < n ==> #[trigger] run.progress[first + i]
                    == (LoadProgress::PartTensorLoaded {
                    part: 0,
                    current_tensor: (i + 1) as usize,
                    tensor_count: n as usize,
                })
            &&& run.progress.last() matches LoadProgress::PartLoaded { part, byte_size, tensor_count }
                && part == 0 && tensor_count == n as usize
        }),
{
    let run = load_result(parts, n_ctx, types, earlier);
    let outcome = run.result->Ok_0;
    let h = outcome.hparams;
    let wtype = h.weight_type()->0;
    let images = images_of(parts);
    let blank = blank_tensors(h, wtype, types, 1);
    lemma_blank_is_sourced(h, wtype, types, images);
    assert(exists|offset: int, sized: Seq<LoadProgress>|
        #[trigger] parts_from(blank, types, parts, offset, 0, sized) == (
            run.progress,
            Ok::<Seq<TensorView>, crate::error::LoadFailure>(outcome.tensors),
        ));
    let (offset, sized) = choose|offset: int, sized: Seq<LoadProgress>|
        #[trigger] parts_from(blank, types, parts, offset, 0, sized) == (
            run.progress,
            Ok::<Seq<TensorView>, crate::error::LoadFailure>(outcome.tensors),
        );
    let announced = sized.push(
        LoadProgress::PartLoading { part: 0, current_part: 1, total_parts: 1 },
    );
    let read = part_from(blank, types, parts[0]@, offset, 0, 0, 0, announced);
    assert(read.1 is Ok);
    assert(parts_from(read.1->Ok_0, types, parts, offset, 1, read.0) == (read.0, read.1));
    assert(read == (run.progress, Ok::<Seq<TensorView>, crate::error::LoadFailure>(outcome.tensors)));
    assert(parts[0]@.len() == parts[0].len());
    lemma_part_reports_its_entries(blank, types, parts[0]@, offset, 0, 0, 0, announced, images);
    lemma_marked_all_or_none(blank, 0);
    lemma_marked_all_or_none(outcome.tensors, 0);
    assert forall|idx: int| 0 <= idx < outcome.tensors.len() implies (#[trigger] outcome.tensors[idx]).fill[0]
        != PartFill::Untouched by {
        assert(outcome.tensors[idx].complete());
    }
    let n = declared_count(h);
    assert(marked(outcome.tensors, 0) - marked(blank, 0) == n);
    let first = run.progress.len() - 1 - n;
    assert(first == announced.len());
    assert forall|i: int| 0 <= i < n implies #[trigger] run.progress[first + i]
        == (LoadProgress::PartTensorLoaded {
        part: 0,
        current_tensor: (i + 1) as usize,
        tensor_count: n as usize,
    }) by {
        assert(read.0[announced.len() + i] == (LoadProgress::PartTensorLoaded {
            part: 0,
            current_tensor: (0 + i + 1) as usize,
            tensor_count: blank.len() as usize,
        }));
    }
}

} // verus!
