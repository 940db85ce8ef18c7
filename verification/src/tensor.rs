//! The weight tensors that a model declares: their names, types and shapes.

use vstd::prelude::*;
use vstd::string::StringExecFns;
use crate::bytes::has_bytes;
use crate::element::{ElementType, TypeTable};
use crate::hparams::Hyperparameters;
use crate::text::{decimal, push_decimal};

verus! {

/// Number of tensors that are not part of a layer: the token embedding and
/// the final layer norm.
pub const GLOBAL_TENSORS: usize = 2;

/// Number of tensors of one layer.
pub const LAYER_TENSORS: usize = 6;

/// What a part has done to a tensor so far.
#[derive(Clone, Copy, Debug, PartialEq, Eq, Structural)]
pub enum PartFill {
    /// The part held no entry for the tensor.
    Untouched,
    /// The part held the whole tensor: part 0 wrote it, a later part passed
    /// over it.
    Whole,
    /// The part wrote its fragment of every row.
    Fragment,
}

/// A weight tensor: up to two dimensions, `ne0` elements per row and `ne1`
/// rows, stored row after row in `data`.
#[derive(Debug, PartialEq, Eq)]
pub struct Tensor {
    pub name: String,
    pub etype: ElementType,
    pub ne0: u64,
    pub ne1: u64,
    pub data: Vec<u8>,
    /// One entry per part of the model file.
    pub fill: Vec<PartFill>,
    /// For each part that held the tensor, the offset in the part's image at
    /// which its data stands; 0 for a part that has not touched the tensor.
    pub origin: Vec<usize>,
}

/// A [`Tensor`] with its name, data and fill marks as sequences.
pub struct TensorView {
    pub name: Seq<char>,
    pub etype: ElementType,
    pub ne0: u64,
    pub ne1: u64,
    pub data: Seq<u8>,
    pub fill: Seq<PartFill>,
    pub origin: Seq<usize>,
}

impl View for Tensor {
    type V = TensorView;

    open spec fn view(&self) -> TensorView {
        TensorView {
            name: self.name@,
            etype: self.etype,
            ne0: self.ne0,
            ne1: self.ne1,
            data: self.data@,
            fill: self.fill@,
            origin: self.origin@,
        }
    }
}

/// The views of a run of tensors.
pub open spec fn views(tensors: Seq<Tensor>) -> Seq<TensorView> {
    Seq::new(tensors.len(), |i: int| tensors[i]@)
}

/// `idx` is the first tensor with this name.
pub open spec fn is_first_named(tensors: Seq<TensorView>, name: Seq<char>, idx: int) -> bool {
    &&& 0 <= idx < tensors.len()
    &&& tensors[idx].name == name
    &&& forall|other: int| 0 <= other < idx ==> (#[trigger] tensors[other]).name != name
}

/// Index of the first tensor with this name, if there is one.
pub open spec fn first_named(tensors: Seq<TensorView>, name: Seq<char>) -> Option<int> {
    if exists|idx: int| is_first_named(tensors, name, idx) {
        Some(choose|idx: int| is_first_named(tensors, name, idx))
    } else {
        None
    }
}

/// Largest extent of a dimension of a declared tensor: four times the
/// largest model width.
pub const MAX_EXTENT: u64 = 0x2_0000_0000;

impl TensorView {
    /// The data has the size that the type and shape give, and the shape is
    /// within bounds.
    pub open spec fn wf(self, types: TypeTable) -> bool {
        &&& self.ne0 <= MAX_EXTENT
        &&& self.ne1 <= MAX_EXTENT
        &&& self.data.len() == types.layout(self.etype).bytes_for(self.ne0 * self.ne1)
        &&& self.origin.len() == self.fill.len()
    }

    /// Bytes of one row.
    pub open spec fn row_size(self, types: TypeTable) -> int {
        (self.ne0 as int / (types.layout(self.etype).blck_size as int)) * types.layout(
            self.etype,
        ).type_size
    }

    /// The tensor holds all of its data: part 0 wrote it whole, or every part
    /// wrote its fragment.
    pub open spec fn complete(self) -> bool {
        self.fill.len() > 0 && (self.fill[0] == PartFill::Whole || forall|p: int|
            0 <= p < self.fill.len() ==> self.fill[p] == PartFill::Fragment)
    }

    /// Bytes of one part's share of a row.
    pub open spec fn fragment_size(self, types: TypeTable) -> int {
        self.row_size(types) / (self.fill.len() as int)
    }

    /// The tensor can be split among its parts without a remainder: the
    /// elements of a row and the bytes of a row divide evenly among the
    /// parts, and the rows take up all of the data.
    pub open spec fn splits_evenly(self, types: TypeTable) -> bool {
        &&& self.ne0 as int % (self.fill.len() as int) == 0
        &&& self.row_size(types) % (self.fill.len() as int) == 0
        &&& self.ne1 * self.row_size(types) == self.data.len()
    }

    /// The byte of `image` that part `part` puts at offset `j` of the data,
    /// where `j` lies in the part's share of its row.
    pub open spec fn fragment_byte(self, types: TypeTable, image: Seq<u8>, part: int, j: int) -> u8 {
        let row = self.row_size(types);
        let frag = self.fragment_size(types);
        image[self.origin[part] + (j / row) * frag + (j % row - part * frag)]
    }

    /// Offset `j` of the data lies in the share that part `part` has of its
    /// row.
    pub open spec fn in_share(self, types: TypeTable, part: int, j: int) -> bool {
        let row = self.row_size(types);
        let frag = self.fragment_size(types);
        0 <= j < self.data.len() && part * frag <= j % row < (part + 1) * frag
    }

    /// What the parts have placed so far is in the data: if part 0 wrote the
    /// tensor whole, the data is the run of its image that the entry held;
    /// for each part that wrote its fragments, the tensor splits evenly and
    /// every byte of the part's share of every row is the byte of the part's
    /// image that belongs there. `images` are the images of the parts.
    pub open spec fn sourced(self, types: TypeTable, images: Seq<Seq<u8>>) -> bool {
        &&& images.len() == self.fill.len()
        &&& self.origin.len() == self.fill.len()
        &&& self.fill.len() > 0 && self.fill[0] == PartFill::Whole ==> {
            &&& has_bytes(images[0], self.origin[0] as int, self.data.len() as int)
            &&& self.data == images[0].subrange(
                self.origin[0] as int,
                self.origin[0] + self.data.len(),
            )
        }
        &&& forall|p: int|
            0 <= p < self.fill.len() && #[trigger] self.fill[p] == PartFill::Fragment ==> {
                &&& self.splits_evenly(types)
                &&& forall|j: int|
                    self.in_share(types, p, j) ==> #[trigger] self.data[j] == self.fragment_byte(
                        types,
                        images[p],
                        p,
                        j,
                    )
            }
    }
}

/// Every tensor holds all of its data.
pub open spec fn all_complete(tensors: Seq<TensorView>) -> bool {
    forall|idx: int| 0 <= idx < tensors.len() ==> (#[trigger] tensors[idx]).complete()
}

/// `idx` is the first tensor that does not hold all of its data.
pub open spec fn is_first_incomplete(tensors: Seq<TensorView>, idx: int) -> bool {
    &&& 0 <= idx < tensors.len()
    &&& !tensors[idx].complete()
    &&& forall|other: int| 0 <= other < idx ==> (#[trigger] tensors[other]).complete()
}

/// The first tensor that does not hold all of its data, where there is one.
pub open spec fn first_incomplete(tensors: Seq<TensorView>) -> int {
    choose|idx: int| is_first_incomplete(tensors, idx)
}

/// Name of the tensor at position `k` within a layer, after the layer's
/// prefix.
pub open spec fn layer_suffix(k: int) -> Seq<char> {
    if k == 0 {
        ".ln_1.weight"@
    } else if k == 1 {
        ".attn.Wqkv.weight"@
    } else if k == 2 {
        ".attn.out_proj.weight"@
    } else if k == 3 {
        ".ln_2.weight"@
    } else if k == 4 {
        ".mlp.mlp_up.weight"@
    } else {
        ".mlp.mlp_down.weight"@
    }
}

/// On-disk name of the declared tensor with index `idx`: the embedding, the
/// final norm, then the six tensors of each layer in turn.
pub open spec fn declared_name(idx: int) -> Seq<char> {
    if idx == 0 {
        "transformer.wte.weight"@
    } else if idx == 1 {
        "transformer.ln_f.weight"@
    } else {
        "transformer.blocks."@ + decimal(((idx - 2) / 6) as nat) + layer_suffix((idx - 2) % 6)
    }
}

/// Element type of the declared tensor `idx`: the norms are always `F32`,
/// the matrices have the model's weight type.
pub open spec fn declared_type(wtype: ElementType, idx: int) -> ElementType {
    if idx == 1 || (idx >= 2 && ((idx - 2) % 6 == 0 || (idx - 2) % 6 == 3)) {
        ElementType::F32
    } else {
        wtype
    }
}

/// Shape of the declared tensor `idx`, as elements per row and rows.
pub open spec fn declared_shape(h: Hyperparameters, idx: int) -> (int, int) {
    let d = h.d_model as int;
    if idx == 0 {
        (d, h.n_vocab as int)
    } else if idx == 1 {
        (d, 1)
    } else {
        let k = (idx - 2) % 6;
        if k == 0 || k == 3 {
            (d, 1)
        } else if k == 1 {
            (d, 3 * d)
        } else if k == 2 {
            (d, d)
        } else if k == 4 {
            (d, 4 * d)
        } else {
            (4 * d, d)
        }
    }
}

/// Number of tensors that a model with these hyperparameters declares.
pub open spec fn declared_count(h: Hyperparameters) -> int {
    GLOBAL_TENSORS + LAYER_TENSORS * h.n_layers
}

impl Tensor {
    pub open spec fn nelements(self) -> int {
        self.ne0 * self.ne1
    }

    /// The tensor is the declared tensor `idx` of a model with hyperparameters
    /// `h`, weight type `wtype` and `n_parts` parts.
    pub open spec fn declared_as(
        self,
        h: Hyperparameters,
        wtype: ElementType,
        types: TypeTable,
        n_parts: int,
        idx: int,
    ) -> bool {
        &&& self.name@ == declared_name(idx)
        &&& self.etype == declared_type(wtype, idx)
        &&& self.ne0 == declared_shape(h, idx).0
        &&& self.ne1 == declared_shape(h, idx).1
        &&& self.data.len() == types.layout(self.etype).bytes_for(self.nelements())
        &&& self.fill.len() == n_parts
        &&& self.origin.len() == n_parts
    }

    /// True if the tensor holds all of its data.
    pub fn is_complete(&self) -> (r: bool)
        ensures
            r == self@.complete(),
    {
        if self.fill.len() == 0 {
            return false;
        }
        if self.fill[0] == PartFill::Whole {
            return true;
        }
        let mut p: usize = 0;
        while p < self.fill.len()
            invariant
                p <= self.fill.len(),
                self.fill.len() > 0,
                self.fill[0] != PartFill::Whole,
                forall|q: int| 0 <= q < p ==> self.fill[q] == PartFill::Fragment,
            decreases self.fill.len() - p,
        {
            if self.fill[p] != PartFill::Fragment {
                return false;
            }
            p = p + 1;
        }
        true
    }
}

/// The on-disk name of the declared tensor `idx`.
pub fn tensor_name(idx: usize) -> (r: String)
    requires
        idx <= 2 + 6 * 0x7FFF_FFFF,
    ensures
        r@ == declared_name(idx as int),
{
    if idx == 0 {
        String::from_str("transformer.wte.weight")
    } else if idx == 1 {
        String::from_str("transformer.ln_f.weight")
    } else {
        let layer = (idx - 2) / 6;
        let k = (idx - 2) % 6;
        let mut name = String::from_str("transformer.blocks.");
        push_decimal(&mut name, layer as u32);
        let suffix = if k == 0 {
            ".ln_1.weight"
        } else if k == 1 {
            ".attn.Wqkv.weight"
        } else if k == 2 {
            ".attn.out_proj.weight"
        } else if k == 3 {
            ".ln_2.weight"
        } else if k == 4 {
            ".mlp.mlp_up.weight"
        } else {
            ".mlp.mlp_down.weight"
        };
        name.append(suffix);
        name
    }
}

} // verus!
