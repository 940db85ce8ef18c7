//! The model: hyperparameters and the declared weight tensors.

use vstd::prelude::*;
use crate::element::{ElementType, TypeTable};
use crate::error::{LoadError, LoadFailure};
use crate::hparams::Hyperparameters;
use crate::tensor::{
    all_complete,
    declared_count,
    declared_shape,
    declared_type,
    first_incomplete,
    first_named,
    is_first_incomplete,
    is_first_named,
    tensor_name,
    views,
    PartFill,
    Tensor,
};

verus! {

/// The weights of a model. Everything that changes during generation lives
/// in a session.
#[derive(Debug, PartialEq, Eq)]
pub struct Model {
    pub hparams: Hyperparameters,
    /// Block layouts of the tensor runtime that will compute with the weights.
    pub types: TypeTable,
    /// Element type of the large weight tensors.
    pub wtype: ElementType,
    /// The declared tensors: embedding, final norm, then six per layer.
    pub tensors: Vec<Tensor>,
    /// Number of files that the weights are split over.
    pub n_parts: usize,
}

/// No dimension and no count is negative.
pub open spec fn dims_fit(h: Hyperparameters) -> bool {
    h.d_model >= 0 && h.max_seq_len >= 0 && h.n_layers >= 0 && h.n_vocab >= 0
}

/// Elements of the key memory, and of the value memory, of a session: one
/// row of `d_model` elements per layer and position.
pub open spec fn memory_elements(h: Hyperparameters) -> int {
    h.max_seq_len * h.n_layers * h.d_model
}

/// Bytes of the declared tensor `idx`.
pub open spec fn declared_bytes(
    h: Hyperparameters,
    wtype: ElementType,
    types: TypeTable,
    idx: int,
) -> int {
    types.layout(declared_type(wtype, idx)).bytes_for(
        declared_shape(h, idx).0 * declared_shape(h, idx).1,
    )
}

/// The tensors of a model with these hyperparameters, and the memory of a
/// session on it, can be held: the number of tensors, the byte size of each,
/// and the size of a session's key memory at four bytes per element fit the
/// machine's word.
pub open spec fn declarable(h: Hyperparameters, wtype: ElementType, types: TypeTable) -> bool {
    &&& dims_fit(h)
    &&& 4 * memory_elements(h) <= usize::MAX
    &&& declared_count(h) <= usize::MAX
    &&& forall|idx: int|
        0 <= idx < declared_count(h) ==> #[trigger] declared_bytes(h, wtype, types, idx)
            <= usize::MAX
}

impl Model {
    /// The tensor table is the one that the hyperparameters declare.
    pub open spec fn wf(self) -> bool {
        &&& dims_fit(self.hparams)
        &&& 4 * memory_elements(self.hparams) <= usize::MAX
        &&& self.types.wf()
        &&& self.hparams.weight_type() == Some(self.wtype)
        &&& self.n_parts >= 1
        &&& self.tensors.len() == declared_count(self.hparams)
        &&& forall|idx: int|
            0 <= idx < self.tensors.len() ==> (#[trigger] self.tensors[idx]).declared_as(
                self.hparams,
                self.wtype,
                self.types,
                self.n_parts as int,
                idx,
            )
    }

    /// No part has touched any tensor, and every byte is zero.
    pub open spec fn blank(self) -> bool {
        forall|idx: int|
            0 <= idx < self.tensors.len() ==> {
                &&& forall|j: int|
                    0 <= j < (#[trigger] self.tensors[idx]).data.len() ==> self.tensors[idx].data[j]
                        == 0
                &&& forall|p: int|
                    0 <= p < self.tensors[idx].fill.len() ==> self.tensors[idx].fill[p]
                        == PartFill::Untouched
                &&& forall|p: int|
                    0 <= p < self.tensors[idx].origin.len() ==> self.tensors[idx].origin[p] == 0
            }
    }

    /// Looks a tensor up by its on-disk name: the first one that bears it.
    pub fn find(&self, name: &String) -> (r: Option<usize>)
        ensures
            match first_named(views(self.tensors@), name@) {
                Some(idx) => r == Some(idx as usize) && idx < self.tensors.len(),
                None => r is None,
            },
    {
        let mut i: usize = 0;
        while i < self.tensors.len()
            invariant
                i <= self.tensors.len(),
                forall|other: int|
                    0 <= other < i ==> (#[trigger] views(self.tensors@)[other]).name != name@,
            decreases self.tensors.len() - i,
        {
            if self.tensors[i].name == *name {
                proof {
                    let v = views(self.tensors@);
                    assert(v[i as int].name == name@);
                    assert(is_first_named(v, name@, i as int));
                    let chosen = first_named(v, name@)->0;
                    assert(is_first_named(v, name@, chosen));
                    if chosen < i {
                        assert(v[chosen].name != name@);
                    }
                    if i < chosen {
                        assert(v[i as int].name != name@);
                    }
                }
                return Some(i);
            }
            proof {
                assert(views(self.tensors@)[i as int].name != name@);
            }
            i = i + 1;
        }
        proof {
            let v = views(self.tensors@);
            if exists|idx: int| is_first_named(v, name@, idx) {
                let idx = choose|idx: int| is_first_named(v, name@, idx);
                assert(v[idx].name != name@);
            }
        }
        None
    }

    /// The index of the first tensor that does not hold all of its data.
    pub fn first_incomplete(&self) -> (r: Option<usize>)
        ensures
            r is None <==> all_complete(views(self.tensors@)),
            r is Some ==> r->0 == first_incomplete(views(self.tensors@)) && r->0
                < self.tensors.len(),
    {
        let mut i: usize = 0;
        while i < self.tensors.len()
            invariant
                i <= self.tensors.len(),
                forall|idx: int| 0 <= idx < i ==> (#[trigger] views(self.tensors@)[idx]).complete(),
            decreases self.tensors.len() - i,
        {
            if !self.tensors[i].is_complete() {
                proof {
                    let v = views(self.tensors@);
                    assert(!v[i as int].complete());
                    assert(is_first_incomplete(v, i as int));
                    let chosen = first_incomplete(v);
                    assert(is_first_incomplete(v, chosen));
                    if chosen < i {
                        assert(v[chosen].complete());
                    }
                    if i < chosen {
                        assert(v[i as int].complete());
                    }
                }
                return Some(i);
            }
            proof {
                assert(views(self.tensors@)[i as int].complete());
            }
            i = i + 1;
        }
        None
    }
}

/// The shape of the declared tensor `idx`.
fn shape_of(h: &Hyperparameters, idx: usize) -> (r: (u64, u64))
    requires
        dims_fit(*h),
    ensures
        r.0 == declared_shape(*h, idx as int).0,
        r.1 == declared_shape(*h, idx as int).1,
        r.0 <= 0x2_0000_0000,
        r.1 <= 0x2_0000_0000,
{
    let d: u64 = h.d_model as u64;
    if idx == 0 {
        (d, h.n_vocab as u64)
    } else if idx == 1 {
        (d, 1)
    } else {
        let k = (idx - 2) % 6;
        if k == 0 || k == 3 {
            (d, 1)
        } else if k == 1 {
            (d, 3 * d)
        } else if k == 2 {
            (d, d)
        } else if k == 4 {
            (d, 4 * d)
        } else {
            (4 * d, d)
        }
    }
}

/// The element type of the declared tensor `idx`.
fn type_of(wtype: ElementType, idx: usize) -> (r: ElementType)
    ensures
        r == declared_type(wtype, idx as int),
{
    if idx == 1 || (idx >= 2 && ((idx - 2) % 6 == 0 || (idx - 2) % 6 == 3)) {
        ElementType::F32
    } else {
        wtype
    }
}

impl Model {
    /// Declares the tensors of a model whose weights come in `n_parts` files.
    /// Every tensor starts zeroed and untouched.
    ///
    /// Fails with `HyperparametersF16Invalid` when `ftype` names no element
    /// type, and with `InvalidIntegerConversion` when a dimension is negative
    /// or a size does not fit the machine's word.
    pub fn declare(hparams: Hyperparameters, types: TypeTable, n_parts: usize) -> (r: Result<
        Model,
        LoadError,
    >)
        requires
            types.wf(),
            n_parts >= 1,
        ensures
            hparams.weight_type() is None ==> r is Err && r->Err_0@
                == (LoadFailure::HyperparametersF16Invalid { value: hparams.ftype }),
            hparams.weight_type() is Some && !declarable(hparams, hparams.weight_type()->0, types)
                ==> r is Err && r->Err_0@ == LoadFailure::InvalidIntegerConversion,
            hparams.weight_type() is Some && declarable(hparams, hparams.weight_type()->0, types)
                ==> r is Ok,
            r is Ok ==> {
                &&& r->Ok_0.wf()
                &&& r->Ok_0.blank()
                &&& r->Ok_0.hparams == hparams
                &&& r->Ok_0.types == types
                &&& r->Ok_0.n_parts == n_parts
            },
    {
        let wtype = match ElementType::from_ftype(hparams.ftype) {
            Some(t) => t,
            None => {
                return Err(LoadError::HyperparametersF16Invalid { value: hparams.ftype });
            },
        };
        if hparams.d_model < 0 || hparams.max_seq_len < 0 || hparams.n_layers < 0 || hparams.n_vocab
            < 0 {
            return Err(LoadError::InvalidIntegerConversion);
        }
        assert(0 <= hparams.max_seq_len * hparams.n_layers <= 0x8000_0000 * 0x8000_0000
            && 0 <= hparams.max_seq_len * hparams.n_layers * hparams.d_model <= 0x8000_0000
            * 0x8000_0000 * 0x8000_0000) by (nonlinear_arith)
            requires
                0 <= hparams.max_seq_len <= 0x8000_0000,
                0 <= hparams.n_layers <= 0x8000_0000,
                0 <= hparams.d_model <= 0x8000_0000,
        ;
        let memory: u128 = 4 * ((hparams.max_seq_len as u128) * (hparams.n_layers as u128)
            * (hparams.d_model as u128));
        if memory > usize::MAX as u128 {
            return Err(LoadError::InvalidIntegerConversion);
        }
        let count64: u64 = 2 + 6 * (hparams.n_layers as u64);
        if count64 > usize::MAX as u64 {
            return Err(LoadError::InvalidIntegerConversion);
        }
        let count: usize = count64 as usize;
        let mut tensors: Vec<Tensor> = Vec::new();
        let mut idx: usize = 0;
        while idx < count
            invariant
                idx <= count,
                count == declared_count(hparams),
                hparams.weight_type() == Some(wtype),
                dims_fit(hparams),
                types.wf(),
                tensors.len() == idx,
                forall|i: int|
                    0 <= i < idx ==> (#[trigger] tensors[i]).declared_as(
                        hparams,
                        wtype,
                        types,
                        n_parts as int,
                        i,
                    ),
                forall|i: int|
                    0 <= i < idx ==> #[trigger] declared_bytes(hparams, wtype, types, i)
                        <= usize::MAX,
                forall|i: int|
                    0 <= i < idx ==> {
                        &&& forall|j: int|
                            0 <= j < (#[trigger] tensors[i]).data.len() ==> tensors[i].data[j] == 0
                        &&& forall|p: int|
                            0 <= p < tensors[i].fill.len() ==> tensors[i].fill[p]
                                == PartFill::Untouched
                        &&& forall|p: int|
                            0 <= p < tensors[i].origin.len() ==> tensors[i].origin[p] == 0
                    },
            decreases count - idx,
        {
            let (ne0, ne1) = shape_of(&hparams, idx);
            let etype = type_of(wtype, idx);
            assert(ne0 * ne1 <= 0x2_0000_0000 * 0x2_0000_0000) by (nonlinear_arith)
                requires
                    0 <= ne0 <= 0x2_0000_0000,
                    0 <= ne1 <= 0x2_0000_0000,
            ;
            let nelements: u128 = (ne0 as u128) * (ne1 as u128);
            let nbytes = types.layout_of(etype).storage_bytes(nelements);
            if nbytes > usize::MAX as u128 {
                assert(declared_bytes(hparams, wtype, types, idx as int) > usize::MAX);
                return Err(LoadError::InvalidIntegerConversion);
            }
            let tensor = Tensor {
                name: tensor_name(idx),
                etype,
                ne0,
                ne1,
                data: vec![0u8; nbytes as usize],
                fill: vec![PartFill::Untouched; n_parts],
                origin: vec![0usize; n_parts],
            };
            tensors.push(tensor);
            idx = idx + 1;
        }
        Ok(Model { hparams, types, wtype, tensors, n_parts })
    }
}

} // verus!
