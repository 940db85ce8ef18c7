//! Loading a model from the byte images of its files.
//!
//! The main file holds the header, the vocabulary and the tensor entries of
//! part 0. Every further part repeats the metadata and holds its own tensor
//! entries from the same offset on.

use vstd::prelude::*;
use crate::element::{ElementType, TypeTable};
use crate::entry::{entry_header_at, read_entry_header};
use crate::error::{LoadError, LoadFailure};
use crate::hparams::{header_fields, parse_header, Hyperparameters, HEADER_LEN};
use crate::model::{declarable, declared_bytes, Model};
use crate::placement::{place, place_result};
use crate::sizing::{weight_context_bytes, weight_context_size};
use crate::tensor::{
    all_complete,
    declared_count,
    declared_name,
    declared_shape,
    declared_type,
    first_incomplete,
    first_named,
    views,
    PartFill,
    TensorView,
};
use crate::written::{all_sourced, images_of, lemma_loaded_tensors_are_sourced};
use crate::vocab::{parse_vocabulary, vocab_prefix, vocab_run, VocabModel, Vocabulary};

verus! {

/// A step of loading, for reporting progress. Parts are named by their
/// position in the sorted list of part files.
#[derive(Clone, Copy, Debug, PartialEq, Eq, PartialOrd, Ord, Structural)]
pub enum LoadProgress {
    HyperparametersLoaded(Hyperparameters),
    BadToken { index: usize },
    ContextSize { bytes: usize },
    MemorySize { bytes: usize, n_mem: usize },
    PartLoading { part: usize, current_part: usize, total_parts: usize },
    PartTensorLoaded { part: usize, current_tensor: usize, tensor_count: usize },
    PartLoaded { part: usize, byte_size: usize, tensor_count: usize },
}

/// The tensors after the entry at `pos` of part `part` has been placed, the
/// offset after the entry, and the number of data bytes it held; or the
/// error: that of reading the header, `UnknownTensor` where no declared
/// tensor bears the entry's name, or that of placing the data.
pub open spec fn entry_step(
    tensors: Seq<TensorView>,
    types: TypeTable,
    bytes: Seq<u8>,
    pos: int,
    part: usize,
) -> Result<(Seq<TensorView>, int, int), LoadFailure> {
    match entry_header_at(bytes, pos, part) {
        Err(e) => Err(e),
        Ok(h) => match first_named(tensors, h.name) {
            None => Err(LoadFailure::UnknownTensor { tensor_name: h.name, part }),
            Some(idx) => match place_result(tensors[idx], types, bytes, h, part) {
                Err(e) => Err(e),
                Ok((t, next)) => Ok((tensors.update(idx, t), next, next - h.data_at)),
            },
        },
    }
}

/// A placed entry ends after it starts, and its data lies within it.
pub proof fn lemma_step_advances(
    tensors: Seq<TensorView>,
    types: TypeTable,
    bytes: Seq<u8>,
    pos: int,
    part: usize,
)
    requires
        entry_step(tensors, types, bytes, pos, part) is Ok,
    ensures
        pos + 16 <= entry_step(tensors, types, bytes, pos, part)->Ok_0.1 <= bytes.len(),
        0 <= entry_step(tensors, types, bytes, pos, part)->Ok_0.2 <= entry_step(
            tensors,
            types,
            bytes,
            pos,
            part,
        )->Ok_0.1 - pos - 16,
        entry_step(tensors, types, bytes, pos, part)->Ok_0.0.len() == tensors.len(),
{
}

/// What reading a part gives: the progress events, which are made whether
/// the reading ends well or not, and the tensors or the error.
pub type Reading = (Seq<LoadProgress>, Result<Seq<TensorView>, LoadFailure>);

/// The progress events and the tensors after part `part` has been read from
/// `pos` to its end, where `count` entries with `size` bytes of data were
/// placed before `pos` and `events` were made before. Each placed entry is
/// reported with its number within the part, and the end of the part with
/// the totals; an error ends the reading, and the events made before it
/// stay.
pub open spec fn part_from(
    tensors: Seq<TensorView>,
    types: TypeTable,
    bytes: Seq<u8>,
    pos: int,
    part: usize,
    count: int,
    size: int,
    events: Seq<LoadProgress>,
) -> Reading
    decreases bytes.len() - pos,
    via part_from_decreases
{
    if pos >= bytes.len() {
        (
            events.push(
                LoadProgress::PartLoaded {
                    part,
                    byte_size: size as usize,
                    tensor_count: count as usize,
                },
            ),
            Ok(tensors),
        )
    } else {
        match entry_step(tensors, types, bytes, pos, part) {
            Err(e) => (events, Err(e)),
            Ok((placed, next, held)) => part_from(
                placed,
                types,
                bytes,
                next,
                part,
                count + 1,
                size + held,
                events.push(
                    LoadProgress::PartTensorLoaded {
                        part,
                        current_tensor: (count + 1) as usize,
                        tensor_count: tensors.len() as usize,
                    },
                ),
            ),
        }
    }
}

/// An entry that cannot be placed ends the reading of its part with its
/// error, wherever in the part it stands; so does an entry that names no
/// declared tensor, with `UnknownTensor` and its name.
pub proof fn lemma_failing_entry_ends_part(
    tensors: Seq<TensorView>,
    types: TypeTable,
    bytes: Seq<u8>,
    pos: int,
    part: usize,
    count: int,
    size: int,
    events: Seq<LoadProgress>,
)
    requires
        0 <= pos < bytes.len(),
        entry_step(tensors, types, bytes, pos, part) is Err,
    ensures
        part_from(tensors, types, bytes, pos, part, count, size, events) == (
            events,
            Err::<Seq<TensorView>, LoadFailure>(
                entry_step(tensors, types, bytes, pos, part)->Err_0,
            ),
        ),
        entry_header_at(bytes, pos, part) is Ok && first_named(
            tensors,
            entry_header_at(bytes, pos, part)->Ok_0.name,
        ) is None ==> entry_step(tensors, types, bytes, pos, part)->Err_0
            == (LoadFailure::UnknownTensor {
            tensor_name: entry_header_at(bytes, pos, part)->Ok_0.name,
            part,
        }),
{
}

#[via_fn]
proof fn part_from_decreases(
    tensors: Seq<TensorView>,
    types: TypeTable,
    bytes: Seq<u8>,
    pos: int,
    part: usize,
    count: int,
    size: int,
    events: Seq<LoadProgress>,
) {
    if pos < bytes.len() && entry_step(tensors, types, bytes, pos, part) is Ok {
        lemma_step_advances(tensors, types, bytes, pos, part);
    }
}

impl Model {
    /// Reads the entry at `pos` of part `part` and places its data. Returns
    /// the offset after the entry and the number of data bytes it held.
    pub fn place_entry(&mut self, bytes: &[u8], pos: usize, part: usize) -> (r: Result<
        (usize, usize),
        LoadError,
    >)
        requires
            old(self).wf(),
            part < old(self).n_parts,
        ensures
            final(self).wf(),
            final(self).hparams == old(self).hparams,
            final(self).types == old(self).types,
            final(self).wtype == old(self).wtype,
            final(self).n_parts == old(self).n_parts,
            match entry_step(views(old(self).tensors@), old(self).types, bytes@, pos as int, part) {
                Ok((placed, next, held)) => r == Ok::<(usize, usize), LoadError>(
                    (next as usize, held as usize),
                ) && views(final(self).tensors@) == placed,
                Err(e) => r is Err && r->Err_0@ == e,
            },
    {
        let header = match read_entry_header(bytes, pos, part) {
            Ok(h) => h,
            Err(e) => {
                return Err(e);
            },
        };
        let idx = match self.find(&header.name) {
            Some(idx) => idx,
            None => {
                return Err(LoadError::UnknownTensor { tensor_name: header.name, part });
            },
        };
        let ghost before = views(self.tensors@);
        proof {
            assert(self.tensors[idx as int].declared_as(
                self.hparams,
                self.wtype,
                self.types,
                self.n_parts as int,
                idx as int,
            ));
            assert(before[idx as int] == self.tensors[idx as int]@);
        }
        let types = self.types;
        let r = place(&mut self.tensors[idx], &types, bytes, &header, part);
        proof {
            assert forall|i: int| 0 <= i < self.tensors.len() implies (#[trigger] self.tensors[i]).declared_as(
                self.hparams,
                self.wtype,
                self.types,
                self.n_parts as int,
                i,
            ) by {
                if i != idx {
                    assert(self.tensors[i] == old(self).tensors[i]);
                }
                assert(old(self).tensors[i].declared_as(
                    self.hparams,
                    self.wtype,
                    self.types,
                    self.n_parts as int,
                    i,
                ));
            }
        }
        match r {
            Ok(next) => {
                proof {
                    assert(views(self.tensors@) =~= before.update(idx as int, self.tensors[idx as int]@));
                    lemma_step_advances(before, types, bytes@, pos as int, part);
                }
                Ok((next, next - header.data_at))
            },
            Err(e) => Err(e),
        }
    }
}

impl Model {
    /// Reads part `part` from `offset` to its end, placing every entry, and
    /// appends the progress events to `events`, in case of an error those
    /// that were made before it.
    pub fn load_part(
        &mut self,
        bytes: &[u8],
        offset: usize,
        part: usize,
        events: &mut Vec<LoadProgress>,
    ) -> (r: Result<(), LoadError>)
        requires
            old(self).wf(),
            part < old(self).n_parts,
        ensures
            final(self).wf(),
            final(self).hparams == old(self).hparams,
            final(self).types == old(self).types,
            final(self).wtype == old(self).wtype,
            final(self).n_parts == old(self).n_parts,
            final(events)@ == part_from(
                views(old(self).tensors@),
                old(self).types,
                bytes@,
                offset as int,
                part,
                0,
                0,
                old(events)@,
            ).0,
            match part_from(
                views(old(self).tensors@),
                old(self).types,
                bytes@,
                offset as int,
                part,
                0,
                0,
                old(events)@,
            ).1 {
                Ok(tensors) => r is Ok && views(final(self).tensors@) == tensors,
                Err(e) => r is Err && r->Err_0@ == e,
            },
    {
        let total = bytes.len();
        let mut pos: usize = offset;
        let mut count: usize = 0;
        let mut size: usize = 0;
        while pos < total
            invariant
                self.wf(),
                self.hparams == old(self).hparams,
                self.types == old(self).types,
                self.wtype == old(self).wtype,
                self.n_parts == old(self).n_parts,
                part < self.n_parts,
                total == bytes.len(),
                offset <= pos,
                16 * count <= pos - offset,
                size <= pos - offset,
                part_from(
                    views(self.tensors@),
                    self.types,
                    bytes@,
                    pos as int,
                    part,
                    count as int,
                    size as int,
                    events@,
                ) == part_from(
                    views(old(self).tensors@),
                    old(self).types,
                    bytes@,
                    offset as int,
                    part,
                    0,
                    0,
                    old(events)@,
                ),
            decreases total - pos,
        {
            let ghost before = views(self.tensors@);
            let declared = self.tensors.len();
            match self.place_entry(bytes, pos, part) {
                Ok((next, held)) => {
                    proof {
                        lemma_step_advances(before, self.types, bytes@, pos as int, part);
                    }
                    count = count + 1;
                    size = size + held;
                    events.push(
                        LoadProgress::PartTensorLoaded {
                            part,
                            current_tensor: count,
                            tensor_count: declared,
                        },
                    );
                    pos = next;
                },
                Err(e) => {
                    return Err(e);
                },
            }
        }
        events.push(LoadProgress::PartLoaded { part, byte_size: size, tensor_count: count });
        Ok(())
    }
}

/// What a successful load gives.
#[derive(Debug, PartialEq, Eq)]
pub struct LoadedModel {
    pub model: Model,
    /// The vocabulary, from which the tokenizer is built.
    pub vocabulary: Vocabulary,
}

/// What a successful load gives, as plain values.
pub struct LoadOutcome {
    pub hparams: Hyperparameters,
    pub vocabulary: VocabModel,
    pub tensors: Seq<TensorView>,
}

/// What a load gives: the progress events, which are made whether the load
/// ends well or not, and the outcome or the error.
pub struct LoadRun {
    pub progress: Seq<LoadProgress>,
    pub result: Result<LoadOutcome, LoadFailure>,
}

/// The image of the main file: the first part, or nothing where there are no
/// parts.
pub open spec fn main_image(parts: Seq<Vec<u8>>) -> Seq<u8> {
    if parts.len() > 0 {
        parts[0]@
    } else {
        Seq::empty()
    }
}

/// One `BadToken` event per bad token.
pub open spec fn bad_token_events(bad: Seq<int>) -> Seq<LoadProgress> {
    Seq::new(bad.len(), |i: int| LoadProgress::BadToken { index: bad[i] as usize })
}

/// The declared tensors before any part is read: zeroed and untouched.
pub open spec fn blank_tensors(
    h: Hyperparameters,
    wtype: ElementType,
    types: TypeTable,
    n_parts: int,
) -> Seq<TensorView> {
    Seq::new(
        declared_count(h) as nat,
        |idx: int|
            TensorView {
                name: declared_name(idx),
                etype: declared_type(wtype, idx),
                ne0: declared_shape(h, idx).0 as u64,
                ne1: declared_shape(h, idx).1 as u64,
                data: Seq::new(declared_bytes(h, wtype, types, idx) as nat, |j: int| 0u8),
                fill: Seq::new(n_parts as nat, |p: int| PartFill::Untouched),
                origin: Seq::new(n_parts as nat, |p: int| 0usize),
            },
    )
}

/// The progress events and the tensors after the parts from `part` on have
/// been read, each from `offset` on and each announced by a `PartLoading`
/// event; an error ends the reading.
pub open spec fn parts_from(
    tensors: Seq<TensorView>,
    types: TypeTable,
    parts: Seq<Vec<u8>>,
    offset: int,
    part: int,
    events: Seq<LoadProgress>,
) -> Reading
    decreases parts.len() - part,
{
    if part < 0 || part >= parts.len() {
        (events, Ok(tensors))
    } else {
        let read = part_from(
            tensors,
            types,
            parts[part]@,
            offset,
            part as usize,
            0,
            0,
            events.push(
                LoadProgress::PartLoading {
                    part: part as usize,
                    current_part: (part + 1) as usize,
                    total_parts: parts.len() as usize,
                },
            ),
        );
        match read.1 {
            Err(e) => read,
            Ok(placed) => parts_from(placed, types, parts, offset, part + 1, read.0),
        }
    }
}

/// The outcome of a load whose parts have been read with result `read`:
/// every declared tensor must hold all of its data.
pub open spec fn checked(
    h: Hyperparameters,
    vocabulary: VocabModel,
    n_parts: int,
    read: Result<Seq<TensorView>, LoadFailure>,
) -> Result<LoadOutcome, LoadFailure> {
    match read {
        Err(e) => Err(e),
        Ok(tensors) => if all_complete(tensors) {
            Ok(LoadOutcome { hparams: h, vocabulary, tensors })
        } else {
            Err(
                LoadFailure::TensorWrongSize {
                    tensor_name: tensors[first_incomplete(tensors)].name,
                    part: (n_parts - 1) as usize,
                },
            )
        },
    }
}

/// What loading the images `parts` gives, after the progress events
/// `earlier`.
///
/// The header and the vocabulary are read from the main file; the
/// hyperparameters are reported, and every bad token that is read. Then the
/// weight type is checked (`HyperparametersF16Invalid`), the arena is sized
/// (`InvalidIntegerConversion` where its size does not fit) and its size is
/// reported, and the tensors are declared (`InvalidIntegerConversion` where a
/// size does not fit). Every part is read from the offset at which the main
/// file's vocabulary ends. At the end every declared tensor must hold all of
/// its data: the first that does not is reported as `TensorWrongSize`, with
/// the last part. Where the load fails, the events made before the failure
/// are in the progress.
pub open spec fn load_result(
    parts: Seq<Vec<u8>>,
    n_ctx: i32,
    types: TypeTable,
    earlier: Seq<LoadProgress>,
) -> LoadRun {
    let main = main_image(parts);
    if main.len() < HEADER_LEN {
        LoadRun { progress: earlier, result: Err(LoadFailure::ReadExactFailed { bytes: 4 }) }
    } else {
        let h = header_fields(main);
        let words = if h.n_vocab < 0 {
            0nat
        } else {
            h.n_vocab as nat
        };
        let announced = earlier.push(LoadProgress::HyperparametersLoaded(h)) + bad_token_events(
            vocab_run(main, HEADER_LEN as int, words).bad,
        );
        match vocab_prefix(main, HEADER_LEN as int, words) {
            Err(e) => LoadRun { progress: announced, result: Err(e@) },
            Ok(vocabulary) => match h.weight_type() {
                None => LoadRun {
                    progress: announced,
                    result: Err(LoadFailure::HyperparametersF16Invalid { value: h.ftype }),
                },
                Some(wtype) => if !arena_fits(h, wtype, n_ctx, types) {
                    LoadRun {
                        progress: announced,
                        result: Err(LoadFailure::InvalidIntegerConversion),
                    }
                } else {
                    let sized = announced.push(
                        LoadProgress::ContextSize {
                            bytes: weight_context_bytes(h, n_ctx as int, types.layout(wtype)) as usize,
                        },
                    );
                    if !declarable(h, wtype, types) {
                        LoadRun {
                            progress: sized,
                            result: Err(LoadFailure::InvalidIntegerConversion),
                        }
                    } else {
                        let read = parts_from(
                            blank_tensors(h, wtype, types, parts.len() as int),
                            types,
                            parts,
                            vocabulary.next,
                            0,
                            sized,
                        );
                        LoadRun {
                            progress: read.0,
                            result: checked(h, vocabulary, parts.len() as int, read.1),
                        }
                    }
                },
            },
        }
    }
}

/// The weight arena of a model with hyperparameters `h` fits the machine.
pub open spec fn arena_fits(h: Hyperparameters, wtype: ElementType, n_ctx: i32, types: TypeTable) -> bool {
    &&& h.d_model >= 0
    &&& h.n_layers >= 0
    &&& h.n_vocab >= 0
    &&& n_ctx >= 0
    &&& weight_context_bytes(h, n_ctx as int, types.layout(wtype)) <= usize::MAX
}

impl Model {
    /// Loads a model from the images of its part files, in the order of their
    /// names; the first is the main file. `n_ctx` is the context length for
    /// which the weight arena is sized. The progress events are appended to
    /// `progress` as the steps are taken, in case of an error those that were
    /// made before it. Where the load ends well, every tensor holds all of
    /// its data, and every byte of it is the byte of a part's image that
    /// belongs there.
    pub fn load(
        parts: &Vec<Vec<u8>>,
        n_ctx: i32,
        types: &TypeTable,
        progress: &mut Vec<LoadProgress>,
    ) -> (r: Result<LoadedModel, LoadError>)
        requires
            types.wf(),
        ensures
            final(progress)@ == load_result(parts@, n_ctx, *types, old(progress)@).progress,
            match load_result(parts@, n_ctx, *types, old(progress)@).result {
                Ok(outcome) => {
                    &&& r is Ok
                    &&& r->Ok_0.model.wf()
                    &&& r->Ok_0.model.hparams == outcome.hparams
                    &&& r->Ok_0.model.types == *types
                    &&& r->Ok_0.model.n_parts == parts.len()
                    &&& views(r->Ok_0.model.tensors@) == outcome.tensors
                    &&& all_complete(outcome.tensors)
                    &&& all_sourced(outcome.tensors, *types, images_of(parts@))
                    &&& r->Ok_0.vocabulary.holds(outcome.vocabulary)
                },
                Err(e) => r is Err && r->Err_0@ == e,
            },
    {
        proof {
            if load_result(parts@, n_ctx, *types, old(progress)@).result is Ok {
                lemma_loaded_tensors_are_sourced(parts@, n_ctx, *types, old(progress)@);
            }
        }
        if parts.len() == 0 {
            return Err(LoadError::ReadExactFailed { bytes: 4 });
        }
        let main: &[u8] = parts[0].as_slice();
        let hparams = match parse_header(main) {
            Ok(h) => h,
            Err(e) => {
                return Err(e);
            },
        };
        progress.push(LoadProgress::HyperparametersLoaded(hparams));
        let words: usize = if hparams.n_vocab < 0 {
            0
        } else {
            hparams.n_vocab as usize
        };
        let read = parse_vocabulary(main, HEADER_LEN, words);
        let ghost readable = vocab_run(main@, HEADER_LEN as int, words as nat);
        let ghost told = old(progress)@.push(LoadProgress::HyperparametersLoaded(hparams));
        let mut b: usize = 0;
        while b < read.vocabulary.bad_tokens.len()
            invariant
                b <= read.vocabulary.bad_tokens.len(),
                read.vocabulary.holds(readable),
                progress@ == told + bad_token_events(readable.bad).subrange(0, b as int),
            decreases read.vocabulary.bad_tokens.len() - b,
        {
            progress.push(LoadProgress::BadToken { index: read.vocabulary.bad_tokens[b] });
            proof {
                let all = bad_token_events(readable.bad);
                assert(read.vocabulary.bad()[b as int] == readable.bad[b as int]);
                assert(all.subrange(0, b + 1) =~= all.subrange(0, b as int).push(all[b as int]));
                assert(progress@ =~= told + all.subrange(0, b + 1));
            }
            b = b + 1;
        }
        proof {
            let all = bad_token_events(readable.bad);
            assert(read.vocabulary.bad().len() == readable.bad.len());
            assert(all.subrange(0, all.len() as int) =~= all);
        }
        let ghost announced = progress@;
        let vocabulary = read.vocabulary;
        let offset = match read.end {
            Ok(offset) => offset,
            Err(e) => {
                return Err(e);
            },
        };
        let ghost vocab_model = vocab_prefix(main@, HEADER_LEN as int, words as nat)->Ok_0;
        let wtype = match ElementType::from_ftype(hparams.ftype) {
            Some(t) => t,
            None => {
                return Err(LoadError::HyperparametersF16Invalid { value: hparams.ftype });
            },
        };
        let bytes = match weight_context_size(&hparams, n_ctx, types.layout_of(wtype)) {
            Some(bytes) => bytes,
            None => {
                return Err(LoadError::InvalidIntegerConversion);
            },
        };
        progress.push(LoadProgress::ContextSize { bytes });
        let mut model = match Model::declare(hparams, *types, parts.len()) {
            Ok(model) => model,
            Err(e) => {
                return Err(e);
            },
        };
        proof {
            let blank = blank_tensors(hparams, wtype, *types, parts.len() as int);
            let have = views(model.tensors@);
            assert(have.len() == blank.len());
            assert forall|idx: int| 0 <= idx < have.len() implies have[idx] == blank[idx] by {
                let t = model.tensors[idx];
                assert(t.declared_as(hparams, wtype, *types, parts.len() as int, idx));
                assert(t@.data =~= blank[idx].data);
                assert(t@.fill =~= blank[idx].fill);
                assert(t@.origin =~= blank[idx].origin);
            }
            assert(have =~= blank);
        }
        let ghost sized = progress@;
        let ghost blank = views(model.tensors@);
        let ghost whole = parts_from(blank, *types, parts@, offset as int, 0, sized);
        let mut part: usize = 0;
        proof {
            assert(sized == announced.push(LoadProgress::ContextSize { bytes }));
            assert(load_result(parts@, n_ctx, *types, old(progress)@).progress == whole.0);
            assert(load_result(parts@, n_ctx, *types, old(progress)@).result == checked(
                hparams,
                vocab_model,
                parts.len() as int,
                whole.1,
            ));
        }
        while part < parts.len()
            invariant
                part <= parts.len(),
                load_result(parts@, n_ctx, *types, old(progress)@).progress == whole.0,
                load_result(parts@, n_ctx, *types, old(progress)@).result == checked(
                    hparams,
                    vocab_model,
                    parts.len() as int,
                    whole.1,
                ),
                model.wf(),
                model.hparams == hparams,
                model.types == *types,
                model.n_parts == parts.len(),
                parts_from(views(model.tensors@), *types, parts@, offset as int, part as int, progress@)
                    == whole,
            decreases parts.len() - part,
        {
            progress.push(
                LoadProgress::PartLoading {
                    part,
                    current_part: part + 1,
                    total_parts: parts.len(),
                },
            );
            match model.load_part(parts[part].as_slice(), offset, part, progress) {
                Ok(()) => {},
                Err(e) => {
                    return Err(e);
                },
            }
            part = part + 1;
        }
        match model.first_incomplete() {
            Some(idx) => Err(
                LoadError::TensorWrongSize {
                    tensor_name: model.tensors[idx].name.clone(),
                    part: parts.len() - 1,
                },
            ),
            None => Ok(LoadedModel { model, vocabulary }),
        }
    }
}

} // verus!
