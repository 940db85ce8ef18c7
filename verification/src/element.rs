//! Element types of tensors and the storage they take.

use vstd::prelude::*;

verus! {

/// Storage element type of a tensor.
#[derive(Clone, Copy, Debug, PartialEq, Eq, Structural)]
pub enum ElementType {
    F32,
    F16,
    Q4_0,
    Q4_1,
    I32,
}

/// How a type is laid out in memory: `blck_size` elements share one block of
/// `type_size` bytes. Plain types have blocks of one element.
#[derive(Clone, Copy, Debug, PartialEq, Eq, Structural)]
pub struct BlockLayout {
    pub type_size: usize,
    pub blck_size: usize,
}

/// Largest block size, in bytes or in elements, that a layout may have.
pub const MAX_BLOCK: usize = 0xFFFF;

/// Largest element count for which storage is computed: two to the power 96.
pub const MAX_ELEMENTS: u128 = 0x1_0000_0000_0000_0000_0000_0000;

/// The block layouts of the quantized types. They belong to the tensor
/// runtime in use and are handed over by whoever binds it; the plain types
/// have the sizes their names give.
#[derive(Clone, Copy, Debug, PartialEq, Eq, Structural)]
pub struct TypeTable {
    pub q4_0: BlockLayout,
    pub q4_1: BlockLayout,
}

impl BlockLayout {
    pub open spec fn wf(self) -> bool {
        &&& 1 <= self.type_size <= MAX_BLOCK
        &&& 1 <= self.blck_size <= MAX_BLOCK
    }

    /// Bytes taken by `nelements` elements: whole blocks, rounded down.
    pub open spec fn bytes_for(self, nelements: int) -> int {
        nelements * self.type_size / (self.blck_size as int)
    }

    pub fn is_valid(&self) -> (r: bool)
        ensures
            r == self.wf(),
    {
        1 <= self.type_size && self.type_size <= MAX_BLOCK && 1 <= self.blck_size
            && self.blck_size <= MAX_BLOCK
    }

    /// Bytes taken by `nelements` elements.
    pub fn storage_bytes(&self, nelements: u128) -> (r: u128)
        requires
            self.wf(),
            nelements <= MAX_ELEMENTS,
        ensures
            r == self.bytes_for(nelements as int),
            r <= nelements * MAX_BLOCK,
    {
        assert(nelements * self.type_size <= nelements * 0xFFFF) by (nonlinear_arith)
            requires
                0 <= nelements,
                0 <= self.type_size <= 0xFFFF,
        ;
        assert(nelements * self.type_size <= 0x1_0000_0000_0000_0000_0000_0000 * 0xFFFF)
            by (nonlinear_arith)
            requires
                0 <= nelements <= 0x1_0000_0000_0000_0000_0000_0000,
                0 <= self.type_size <= 0xFFFF,
        ;
        let total: u128 = (nelements as u128) * (self.type_size as u128);
        total / (self.blck_size as u128)
    }
}

impl ElementType {
    /// The type that a storage type code of the model file stands for.
    pub open spec fn of_ftype(code: int) -> Option<ElementType> {
        if code == 0 {
            Some(ElementType::F32)
        } else if code == 1 {
            Some(ElementType::F16)
        } else if code == 2 {
            Some(ElementType::Q4_0)
        } else if code == 3 {
            Some(ElementType::Q4_1)
        } else {
            None
        }
    }

    pub fn from_ftype(code: i32) -> (r: Option<ElementType>)
        ensures
            r == Self::of_ftype(code as int),
    {
        if code == 0 {
            Some(ElementType::F32)
        } else if code == 1 {
            Some(ElementType::F16)
        } else if code == 2 {
            Some(ElementType::Q4_0)
        } else if code == 3 {
            Some(ElementType::Q4_1)
        } else {
            None
        }
    }
}

impl TypeTable {
    pub open spec fn wf(self) -> bool {
        self.q4_0.wf() && self.q4_1.wf()
    }

    pub open spec fn layout(self, t: ElementType) -> BlockLayout {
        match t {
            ElementType::F32 => BlockLayout { type_size: 4, blck_size: 1 },
            ElementType::F16 => BlockLayout { type_size: 2, blck_size: 1 },
            ElementType::Q4_0 => self.q4_0,
            ElementType::Q4_1 => self.q4_1,
            ElementType::I32 => BlockLayout { type_size: 4, blck_size: 1 },
        }
    }

    /// A table with the given layouts of the two quantized types, if both
    /// are within bounds.
    pub fn new(q4_0: BlockLayout, q4_1: BlockLayout) -> (r: Option<TypeTable>)
        ensures
            r is Some <==> q4_0.wf() && q4_1.wf(),
            r is Some ==> r->0 == (TypeTable { q4_0, q4_1 }),
    {
        if q4_0.is_valid() && q4_1.is_valid() {
            Some(TypeTable { q4_0, q4_1 })
        } else {
            None
        }
    }

    pub fn is_valid(&self) -> (r: bool)
        ensures
            r == self.wf(),
    {
        self.q4_0.is_valid() && self.q4_1.is_valid()
    }

    /// The layout of `t`: bytes per block and elements per block.
    pub fn layout_of(&self, t: ElementType) -> (r: BlockLayout)
        ensures
            r == self.layout(t),
            self.wf() ==> r.wf(),
    {
        match t {
            ElementType::F32 => BlockLayout { type_size: 4, blck_size: 1 },
            ElementType::F16 => BlockLayout { type_size: 2, blck_size: 1 },
            ElementType::Q4_0 => self.q4_0,
            ElementType::Q4_1 => self.q4_1,
            ElementType::I32 => BlockLayout { type_size: 4, blck_size: 1 },
        }
    }
}

/// Element types allowed for the key and value memory of a session.
#[derive(Clone, Copy, Debug, PartialEq, Eq, Structural)]
pub enum ModelKVMemoryType {
    Float16,
    Float32,
}

impl ModelKVMemoryType {
    pub open spec fn element_type(self) -> ElementType {
        match self {
            ModelKVMemoryType::Float16 => ElementType::F16,
            ModelKVMemoryType::Float32 => ElementType::F32,
        }
    }

    /// Bytes per element: 2 for `Float16`, 4 for `Float32`.
    pub open spec fn spec_element_size(self) -> int {
        match self {
            ModelKVMemoryType::Float16 => 2,
            ModelKVMemoryType::Float32 => 4,
        }
    }

    pub fn element_size(&self) -> (r: usize)
        ensures
            r == self.spec_element_size(),
    {
        match self {
            ModelKVMemoryType::Float16 => 2,
            ModelKVMemoryType::Float32 => 4,
        }
    }
}

impl From<ModelKVMemoryType> for ElementType {
    fn from(value: ModelKVMemoryType) -> (r: ElementType) {
        match value {
            ModelKVMemoryType::Float16 => ElementType::F16,
            ModelKVMemoryType::Float32 => ElementType::F32,
        }
    }
}

impl vstd::std_specs::convert::FromSpecImpl<ModelKVMemoryType> for ElementType {
    open spec fn obeys_from_spec() -> bool {
        true
    }

    open spec fn from_spec(value: ModelKVMemoryType) -> ElementType {
        value.element_type()
    }
}

} // verus!
