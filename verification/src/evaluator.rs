//! The forward pass, as far as it is arithmetic: what the tensor runtime is
//! asked to do for a batch of tokens, and what its answer does to a session.
//!
//! The graph of tensor operations is built and run by whoever binds the
//! runtime. This module gives it the sizes and offsets to build with, each
//! within the memory it refers to, and takes the logits back.

use vstd::prelude::*;
use crate::arith::lemma_mul_bound;
use crate::ieee::F32Bits;
use crate::hparams::Hyperparameters;
use crate::model::{dims_fit, memory_elements, Model};
use crate::placement::{spread, spread_rows};
use crate::session::InferenceSession;
use crate::token::TokenId;

verus! {

/// Scratch size of a forward pass while the need per token is not known:
/// one gibibyte.
pub const FIRST_RUN_SCRATCH: usize = 0x4000_0000;

/// Bytes of one single-precision element.
pub const F32_SIZE: usize = 4;

/// Scratch size of a forward pass of `n` tokens: a tenth more than the
/// measured need, rounded up, or [`FIRST_RUN_SCRATCH`] where nothing has been
/// measured.
pub open spec fn scratch_bytes(mem_per_token: int, n: int) -> int {
    if mem_per_token > 0 {
        (11 * (mem_per_token * n) + 9) / 10
    } else {
        FIRST_RUN_SCRATCH as int
    }
}

/// A run of elements in a key or value memory.
#[derive(Clone, Copy, Debug, PartialEq, Eq, Structural)]
pub struct MemorySpan {
    /// Byte offset of the first element.
    pub offset: usize,
    /// Number of elements.
    pub elements: usize,
}

/// What a forward pass of `n_tokens` tokens after `n_past` positions works
/// with.
#[derive(Clone, Copy, Debug, PartialEq, Eq, Structural)]
pub struct EvalPlan {
    pub n_threads: i32,
    pub n_tokens: usize,
    pub n_past: usize,
    pub n_ctx: usize,
    pub d_model: usize,
    pub n_heads: usize,
    pub n_layers: usize,
    pub n_vocab: usize,
    /// Width of one attention head: `d_model / n_heads`.
    pub head_dim: usize,
    /// Size of the scratch arena: [`scratch_bytes`], or the largest size the
    /// machine can express where that is smaller.
    pub scratch_bytes: usize,
    /// Bytes per element of the key memory.
    pub key_size: usize,
    /// Bytes per element of the value memory.
    pub value_size: usize,
    /// Byte offset of the last position's logits in the output, which holds
    /// `n_vocab` single-precision values per token.
    pub logits_offset: u64,
    /// Bytes of one position's logits.
    pub logits_bytes: u64,
}

impl EvalPlan {
    /// The plan is that of a pass of at least one token that stays within
    /// the context window of a model whose memories fit the machine.
    pub open spec fn wf(self) -> bool {
        &&& self.n_tokens >= 1
        &&& self.n_past + self.n_tokens <= self.n_ctx
        &&& self.n_heads >= 1
        &&& self.head_dim == self.d_model / self.n_heads
        &&& (self.key_size == 2 || self.key_size == 4)
        &&& (self.value_size == 2 || self.value_size == 4)
        &&& self.n_ctx <= i32::MAX
        &&& self.n_layers <= i32::MAX
        &&& self.d_model <= i32::MAX
        &&& 4 * (self.n_ctx * self.n_layers * self.d_model) <= usize::MAX
    }

    /// Bytes of the key memory.
    pub open spec fn key_memory(self) -> int {
        self.n_ctx * self.n_layers * self.d_model * self.key_size
    }

    /// Bytes of the value memory.
    pub open spec fn value_memory(self) -> int {
        self.n_ctx * self.n_layers * self.d_model * self.value_size
    }

    /// Where the rows of the batch go in a memory with elements of `size`
    /// bytes: `n_tokens` rows from position `n_past` of layer `layer` on.
    pub open spec fn slot(self, layer: int, size: int) -> MemorySpan {
        MemorySpan {
            offset: (size * self.d_model * (layer * self.n_ctx + self.n_past)) as usize,
            elements: (self.n_tokens * self.d_model) as usize,
        }
    }

    /// The rows that attention reads: all positions of layer `layer` up to
    /// the end of the batch.
    pub open spec fn window(self, layer: int, size: int) -> MemorySpan {
        MemorySpan {
            offset: (layer * self.n_ctx * size * self.d_model) as usize,
            elements: ((self.n_past + self.n_tokens) * self.d_model) as usize,
        }
    }
}

/// The spans of a layer lie within a memory of `n_ctx * n_layers` rows.
proof fn lemma_spans_fit(
    n_ctx: int,
    n_layers: int,
    d: int,
    size: int,
    layer: int,
    n_past: int,
    n: int,
)
    requires
        0 <= layer < n_layers,
        0 <= n_past,
        0 <= n,
        n_past + n <= n_ctx,
        0 <= d,
        0 <= size <= 4,
        4 * (n_ctx * n_layers * d) <= usize::MAX,
    ensures
        0 <= layer * n_ctx + n_past,
        0 <= size * d,
        0 <= size * d * (layer * n_ctx + n_past),
        0 <= n * d,
        0 <= (n_past + n) * d,
        0 <= layer * n_ctx,
        0 <= layer * n_ctx * size,
        0 <= layer * n_ctx * size * d,
        size * d * (layer * n_ctx + n_past) + (n * d) * size <= n_ctx * n_layers * d * size,
        layer * n_ctx * size * d + ((n_past + n) * d) * size <= n_ctx * n_layers * d * size,
        n_ctx * n_layers * d * size <= 4 * (n_ctx * n_layers * d),
        0 <= (n * d) * size,
        0 <= ((n_past + n) * d) * size,
{
    assert(0 <= (n * d) * size && 0 <= ((n_past + n) * d) * size) by (nonlinear_arith)
        requires
            0 <= n,
            0 <= n_past,
            0 <= d,
            0 <= size,
    ;
    let rows = layer * n_ctx + n_past;
    assert(0 <= layer * n_ctx && layer * n_ctx + n_ctx <= n_ctx * n_layers) by (nonlinear_arith)
        requires
            0 <= layer < n_layers,
            0 <= n_ctx,
    ;
    assert(rows + n <= n_ctx * n_layers);
    assert(0 <= size * d && 0 <= n * d && 0 <= (n_past + n) * d) by (nonlinear_arith)
        requires
            0 <= size,
            0 <= d,
            0 <= n,
            0 <= n_past,
    ;
    assert(size * d * rows + (n * d) * size == (rows + n) * (d * size) && 0 <= size * d * rows)
        by (nonlinear_arith)
        requires
            0 <= rows,
            0 <= size * d,
    ;
    assert((rows + n) * (d * size) <= (n_ctx * n_layers) * (d * size)) by (nonlinear_arith)
        requires
            rows + n <= n_ctx * n_layers,
            0 <= d,
            0 <= size,
    ;
    assert((n_ctx * n_layers) * (d * size) == n_ctx * n_layers * d * size) by (nonlinear_arith);
    assert(layer * n_ctx * size * d + ((n_past + n) * d) * size == (layer * n_ctx + n_past + n) * (d
        * size) && 0 <= layer * n_ctx * size && 0 <= layer * n_ctx * size * d) by (nonlinear_arith)
        requires
            0 <= layer * n_ctx,
            0 <= size,
            0 <= d,
    ;
    assert(n_ctx * n_layers * d * size <= 4 * (n_ctx * n_layers * d)) by (nonlinear_arith)
        requires
            0 <= n_ctx * n_layers * d,
            0 <= size <= 4,
    ;
}

impl EvalPlan {
    fn span_slot(&self, layer: usize, size: usize) -> (r: MemorySpan)
        requires
            self.wf(),
            layer < self.n_layers,
            size == 2 || size == 4,
        ensures
            r == self.slot(layer as int, size as int),
            r.offset == size * self.d_model * (layer * self.n_ctx + self.n_past),
            r.elements == self.n_tokens * self.d_model,
            r.offset + r.elements * size <= self.n_ctx * self.n_layers * self.d_model * size,
    {
        proof {
            lemma_spans_fit(
                self.n_ctx as int,
                self.n_layers as int,
                self.d_model as int,
                size as int,
                layer as int,
                self.n_past as int,
                self.n_tokens as int,
            );
            assert(self.n_ctx * self.n_layers * self.d_model >= 0) by (nonlinear_arith)
                requires
                    self.n_ctx >= 0,
                    self.n_layers >= 0,
                    self.d_model >= 0,
            ;
        }
        proof {
            lemma_mul_bound(layer as int, self.n_ctx as int, 0x7FFF_FFFF, 0x7FFF_FFFF);
            lemma_mul_bound(size as int, self.d_model as int, 4, 0x7FFF_FFFF);
            lemma_mul_bound(
                size * self.d_model,
                layer * self.n_ctx + self.n_past,
                0x1_FFFF_FFFC,
                0x3FFF_FFFF_8000_0000,
            );
            lemma_mul_bound(self.n_tokens as int, self.d_model as int, 0x7FFF_FFFF, 0x7FFF_FFFF);
        }
        let rows: u128 = (layer as u128) * (self.n_ctx as u128) + (self.n_past as u128);
        let offset: u128 = (size as u128) * (self.d_model as u128) * rows;
        let elements: u128 = (self.n_tokens as u128) * (self.d_model as u128);
        assert(elements <= elements * size) by (nonlinear_arith)
            requires
                elements >= 0,
                size >= 1,
        ;
        MemorySpan { offset: offset as usize, elements: elements as usize }
    }

    fn span_window(&self, layer: usize, size: usize) -> (r: MemorySpan)
        requires
            self.wf(),
            layer < self.n_layers,
            size == 2 || size == 4,
        ensures
            r == self.window(layer as int, size as int),
            r.offset == layer * self.n_ctx * size * self.d_model,
            r.elements == (self.n_past + self.n_tokens) * self.d_model,
            r.offset + r.elements * size <= self.n_ctx * self.n_layers * self.d_model * size,
    {
        proof {
            lemma_spans_fit(
                self.n_ctx as int,
                self.n_layers as int,
                self.d_model as int,
                size as int,
                layer as int,
                self.n_past as int,
                self.n_tokens as int,
            );
            assert(self.n_ctx * self.n_layers * self.d_model >= 0) by (nonlinear_arith)
                requires
                    self.n_ctx >= 0,
                    self.n_layers >= 0,
                    self.d_model >= 0,
            ;
        }
        proof {
            lemma_mul_bound(layer as int, self.n_ctx as int, 0x7FFF_FFFF, 0x7FFF_FFFF);
            lemma_mul_bound(layer * self.n_ctx, size as int, 0x3FFF_FFFF_0000_0001, 4);
            lemma_mul_bound(
                layer * self.n_ctx * size,
                self.d_model as int,
                0xFFFF_FFFC_0000_0004,
                0x7FFF_FFFF,
            );
            lemma_mul_bound(
                self.n_past + self.n_tokens,
                self.d_model as int,
                0x7FFF_FFFF,
                0x7FFF_FFFF,
            );
        }
        let offset: u128 = (layer as u128) * (self.n_ctx as u128) * (size as u128) * (
        self.d_model as u128);
        let elements: u128 = ((self.n_past + self.n_tokens) as u128) * (self.d_model as u128);
        assert(elements <= elements * size) by (nonlinear_arith)
            requires
                elements >= 0,
                size >= 1,
        ;
        MemorySpan { offset: offset as usize, elements: elements as usize }
    }

    /// Where the keys of the batch are written for layer `layer`. The span
    /// lies within the key memory.
    pub fn key_slot(&self, layer: usize) -> (r: MemorySpan)
        requires
            self.wf(),
            layer < self.n_layers,
        ensures
            r == self.slot(layer as int, self.key_size as int),
            r.offset == self.key_size * self.d_model * (layer * self.n_ctx + self.n_past),
            r.elements == self.n_tokens * self.d_model,
            r.offset + r.elements * self.key_size <= self.key_memory(),
    {
        self.span_slot(layer, self.key_size)
    }

    /// Where the values of the batch are written for layer `layer`. The span
    /// lies within the value memory.
    pub fn value_slot(&self, layer: usize) -> (r: MemorySpan)
        requires
            self.wf(),
            layer < self.n_layers,
        ensures
            r == self.slot(layer as int, self.value_size as int),
            r.offset == self.value_size * self.d_model * (layer * self.n_ctx + self.n_past),
            r.elements == self.n_tokens * self.d_model,
            r.offset + r.elements * self.value_size <= self.value_memory(),
    {
        self.span_slot(layer, self.value_size)
    }

    /// The keys that attention reads for layer `layer`: every position up to
    /// the end of the batch. The span lies within the key memory.
    pub fn key_window(&self, layer: usize) -> (r: MemorySpan)
        requires
            self.wf(),
            layer < self.n_layers,
        ensures
            r == self.window(layer as int, self.key_size as int),
            r.offset == layer * self.n_ctx * self.key_size * self.d_model,
            r.elements == (self.n_past + self.n_tokens) * self.d_model,
            r.offset + r.elements * self.key_size <= self.key_memory(),
    {
        self.span_window(layer, self.key_size)
    }

    /// The values that attention reads for layer `layer`. The span lies
    /// within the value memory.
    pub fn value_window(&self, layer: usize) -> (r: MemorySpan)
        requires
            self.wf(),
            layer < self.n_layers,
        ensures
            r == self.window(layer as int, self.value_size as int),
            r.offset == layer * self.n_ctx * self.value_size * self.d_model,
            r.elements == (self.n_past + self.n_tokens) * self.d_model,
            r.offset + r.elements * self.value_size <= self.value_memory(),
    {
        self.span_window(layer, self.value_size)
    }

    /// Byte offset, within a row of the fused projection's output, of the
    /// queries (`which` 0), the keys (1) or the values (2).
    pub fn projection_offset(&self, which: u64) -> (r: u64)
        requires
            self.wf(),
            which <= 2,
        ensures
            r == which * F32_SIZE * self.d_model,
    {
        assert(which * 4 * self.d_model <= 8 * 0x7FFF_FFFF) by (nonlinear_arith)
            requires
                0 <= which <= 2,
                0 <= self.d_model <= 0x7FFF_FFFF,
        ;
        which * 4 * (self.d_model as u64)
    }
}

/// The rows that a batch writes are the last rows of what attention reads:
/// the slot of a layer ends where its window ends, and lies within it. The
/// window lies within the rows of its own layer, so the windows of two
/// layers do not meet. The slot stands in its layer behind the rows that
/// were there, which is where `Model::evaluate` writes the rows of the
/// batch.
pub proof fn lemma_slot_ends_window(plan: EvalPlan, layer: int, size: int)
    requires
        plan.wf(),
        0 <= layer < plan.n_layers,
        size == 2 || size == 4,
    ensures
        plan.window(layer, size).offset <= plan.slot(layer, size).offset,
        plan.slot(layer, size).offset + plan.slot(layer, size).elements * size == plan.window(
            layer,
            size,
        ).offset + plan.window(layer, size).elements * size,
        plan.window(layer, size).offset == layer * (plan.n_ctx * plan.d_model * size),
        plan.window(layer, size).offset + plan.window(layer, size).elements * size <= (layer + 1)
            * (plan.n_ctx * plan.d_model * size),
        plan.slot(layer, size).offset == layer * (plan.n_ctx * plan.d_model * size) + plan.n_past
            * plan.d_model * size,
        plan.slot(layer, size).elements * size == plan.n_tokens * plan.d_model * size,
{
    let n_ctx = plan.n_ctx as int;
    let d = plan.d_model as int;
    let n_past = plan.n_past as int;
    let n = plan.n_tokens as int;
    lemma_spans_fit(n_ctx, plan.n_layers as int, d, size, layer, n_past, n);
    assert(plan.n_ctx * plan.n_layers * plan.d_model >= 0) by (nonlinear_arith)
        requires
            plan.n_ctx >= 0,
            plan.n_layers >= 0,
            plan.d_model >= 0,
    ;
    assert(n * d <= (n * d) * size && (n_past + n) * d <= ((n_past + n) * d) * size)
        by (nonlinear_arith)
        requires
            n * d >= 0,
            (n_past + n) * d >= 0,
            size >= 1,
    ;
    let slot_offset = size * d * (layer * n_ctx + n_past);
    let window_offset = layer * n_ctx * size * d;
    assert(slot_offset == window_offset + (n_past * d) * size && (n_past * d) * size >= 0
        && (n_past * d) * size + (n * d) * size == ((n_past + n) * d) * size) by (nonlinear_arith)
        requires
            slot_offset == size * d * (layer * n_ctx + n_past),
            window_offset == layer * n_ctx * size * d,
            n_past >= 0,
            d >= 0,
            size >= 0,
    ;
    assert(window_offset == layer * (n_ctx * d * size) && window_offset + ((n_past + n) * d) * size
        <= (layer + 1) * (n_ctx * d * size)) by (nonlinear_arith)
        requires
            window_offset == layer * n_ctx * size * d,
            0 <= n_past + n <= n_ctx,
            d >= 0,
            size >= 0,
    ;
}

/// What the tensor runtime hands back after a forward pass.
#[derive(Clone, Debug, PartialEq, Eq)]
pub struct EvalOutcome {
    /// The logits of the last position of the batch, one per vocabulary entry.
    pub logits: Vec<F32Bits>,
    /// Bytes of the scratch arena that the pass used.
    pub used_mem: usize,
    /// The keys of the batch as they stand in the key memory: for each layer
    /// in turn, one row per token.
    pub keys: Vec<u8>,
    /// The values of the batch as they stand in the value memory: for each
    /// layer in turn, one row per token.
    pub values: Vec<u8>,
}

/// Bytes that the rows of one layer take in a memory with elements of `size`
/// bytes.
pub open spec fn layer_bytes(h: Hyperparameters, size: int) -> int {
    h.max_seq_len * h.d_model * size
}

/// Bytes that `n` rows take in a memory with elements of `size` bytes.
pub open spec fn rows_bytes(h: Hyperparameters, size: int, n: int) -> int {
    n * h.d_model * size
}

/// The memory `memory` with the rows of a batch of `n` tokens after `n_past`
/// positions written into it: in each layer the rows of the batch follow
/// the `n_past` rows that were there, and `rows` holds them layer after
/// layer.
pub open spec fn with_batch(
    memory: Seq<u8>,
    rows: Seq<u8>,
    h: Hyperparameters,
    size: int,
    n_past: int,
    n: int,
) -> Seq<u8> {
    spread(
        memory,
        rows,
        0,
        layer_bytes(h, size),
        rows_bytes(h, size, n_past),
        rows_bytes(h, size, n),
        h.n_layers as int,
    )
}

/// Writes the rows of a batch into a memory.
fn write_batch(
    memory: &mut Vec<u8>,
    rows: &Vec<u8>,
    h: &Hyperparameters,
    size: usize,
    n_past: usize,
    n: usize,
)
    requires
        dims_fit(*h),
        4 * memory_elements(*h) <= usize::MAX,
        size == 2 || size == 4,
        old(memory).len() == memory_elements(*h) * size,
        n_past + n <= h.max_seq_len,
        rows.len() == h.n_layers * rows_bytes(*h, size as int, n as int),
    ensures
        final(memory)@ == with_batch(
            old(memory)@,
            rows@,
            *h,
            size as int,
            n_past as int,
            n as int,
        ),
{
    let ghost region = layer_bytes(*h, size as int);
    let ghost shift = rows_bytes(*h, size as int, n_past as int);
    let ghost frag = rows_bytes(*h, size as int, n as int);
    proof {
        lemma_mul_bound(h.max_seq_len as int, h.d_model as int, 0x7FFF_FFFF, 0x7FFF_FFFF);
        lemma_mul_bound(h.max_seq_len * h.d_model, size as int, 0x3FFF_FFFF_0000_0001, 4);
        lemma_mul_bound(n_past as int, h.d_model as int, 0x7FFF_FFFF, 0x7FFF_FFFF);
        lemma_mul_bound(n_past * h.d_model, size as int, 0x3FFF_FFFF_0000_0001, 4);
        lemma_mul_bound(n as int, h.d_model as int, 0x7FFF_FFFF, 0x7FFF_FFFF);
        lemma_mul_bound(n * h.d_model, size as int, 0x3FFF_FFFF_0000_0001, 4);
        assert(shift + frag <= region) by (nonlinear_arith)
            requires
                shift == n_past * h.d_model * size,
                frag == n * h.d_model * size,
                region == h.max_seq_len * h.d_model * size,
                n_past + n <= h.max_seq_len,
                0 <= h.d_model,
                0 <= size,
        ;
        assert(h.n_layers * region == memory_elements(*h) * size) by (nonlinear_arith)
            requires
                region == h.max_seq_len * h.d_model * size,
                memory_elements(*h) == h.max_seq_len * h.n_layers * h.d_model,
        ;
    }
    if h.n_layers == 0 {
        assert(memory@ =~= with_batch(
            old(memory)@,
            rows@,
            *h,
            size as int,
            n_past as int,
            n as int,
        ));
        return ;
    }
    proof {
        assert(region <= h.n_layers * region) by (nonlinear_arith)
            requires
                h.n_layers >= 1,
                region >= 0,
        ;
    }
    let row: u128 = (h.max_seq_len as u128) * (h.d_model as u128) * (size as u128);
    let before: u128 = (n_past as u128) * (h.d_model as u128) * (size as u128);
    let batch: u128 = (n as u128) * (h.d_model as u128) * (size as u128);
    spread_rows(
        memory,
        rows.as_slice(),
        0,
        row as usize,
        before as usize,
        batch as usize,
        h.n_layers as usize,
    );
}

/// The need per token after a pass of `n` tokens that used `used_mem` bytes:
/// measured on the first pass, kept afterwards.
pub open spec fn measured(mem_per_token: usize, used_mem: usize, n: int) -> int {
    if mem_per_token == 0 {
        used_mem as int / n
    } else {
        mem_per_token as int
    }
}

impl Model {
    /// Plans a forward pass of `n_tokens` tokens on `session`.
    ///
    /// The callers keep the pass within the context window; a model without
    /// attention heads cannot be evaluated.
    pub fn plan_evaluation(
        &self,
        session: &InferenceSession,
        n_threads: i32,
        n_tokens: usize,
    ) -> (plan: EvalPlan)
        requires
            self.wf(),
            session.wf(self.hparams),
            self.hparams.n_heads >= 1,
            n_tokens >= 1,
            session.n_past + n_tokens <= self.hparams.max_seq_len,
        ensures
            plan.wf(),
            plan.n_threads == n_threads,
            plan.n_tokens == n_tokens,
            plan.n_past == session.n_past,
            plan.n_ctx == self.hparams.max_seq_len,
            plan.d_model == self.hparams.d_model,
            plan.n_heads == self.hparams.n_heads,
            plan.n_layers == self.hparams.n_layers,
            plan.n_vocab == self.hparams.n_vocab,
            plan.head_dim == self.hparams.d_model / self.hparams.n_heads,
            plan.key_size == session.params.memory_k_type.spec_element_size(),
            plan.value_size == session.params.memory_v_type.spec_element_size(),
            plan.key_memory() == session.memory_k.len(),
            plan.value_memory() == session.memory_v.len(),
            plan.scratch_bytes == if scratch_bytes(session.mem_per_token as int, n_tokens as int)
                <= usize::MAX {
                scratch_bytes(session.mem_per_token as int, n_tokens as int)
            } else {
                usize::MAX as int
            },
            plan.logits_offset == self.hparams.n_vocab * (n_tokens - 1) * F32_SIZE,
            plan.logits_bytes == self.hparams.n_vocab * F32_SIZE,
    {
        let h = &self.hparams;
        let scratch: usize = if session.mem_per_token > 0 {
            proof {
                lemma_mul_bound(
                    session.mem_per_token as int,
                    n_tokens as int,
                    usize::MAX as int,
                    0x7FFF_FFFF,
                );
            }
            let wide: u128 = (11 * ((session.mem_per_token as u128) * (n_tokens as u128)) + 9) / 10;
            if wide > usize::MAX as u128 {
                usize::MAX
            } else {
                wide as usize
            }
        } else {
            FIRST_RUN_SCRATCH
        };
        proof {
            lemma_mul_bound(h.n_vocab as int, n_tokens - 1, 0x7FFF_FFFF, 0x7FFF_FFFF);
            assert(h.max_seq_len * h.n_layers * h.d_model * 2 == memory_elements(*h) * 2);
            assert(h.max_seq_len * h.n_layers * h.d_model * 4 == memory_elements(*h) * 4);
        }
        EvalPlan {
            n_threads,
            n_tokens,
            n_past: session.n_past,
            n_ctx: h.max_seq_len as usize,
            d_model: h.d_model as usize,
            n_heads: h.n_heads as usize,
            n_layers: h.n_layers as usize,
            n_vocab: h.n_vocab as usize,
            head_dim: (h.d_model / h.n_heads) as usize,
            scratch_bytes: scratch,
            key_size: session.params.memory_k_type.element_size(),
            value_size: session.params.memory_v_type.element_size(),
            logits_offset: (h.n_vocab as u64) * ((n_tokens - 1) as u64) * 4,
            logits_bytes: (h.n_vocab as u64) * 4,
        }
    }

    /// Takes the result of a forward pass of `input_tokens` into `session`:
    /// the keys and values of the batch are written into the memories behind
    /// the positions that were there, the positions of the batch count as
    /// written, the logits are those of its last position, and the need per
    /// token is measured if it was not.
    pub fn evaluate(
        &self,
        session: &mut InferenceSession,
        input_tokens: &[TokenId],
        outcome: EvalOutcome,
    )
        requires
            self.wf(),
            old(session).wf(self.hparams),
            input_tokens.len() >= 1,
            old(session).n_past + input_tokens.len() <= self.hparams.max_seq_len,
            outcome.logits.len() == self.hparams.n_vocab,
            outcome.keys.len() == self.hparams.n_layers * rows_bytes(
                self.hparams,
                old(session).params.memory_k_type.spec_element_size(),
                input_tokens.len() as int,
            ),
            outcome.values.len() == self.hparams.n_layers * rows_bytes(
                self.hparams,
                old(session).params.memory_v_type.spec_element_size(),
                input_tokens.len() as int,
            ),
        ensures
            final(session).wf(self.hparams),
            final(session).n_past == old(session).n_past + input_tokens.len(),
            final(session).last_logits == outcome.logits,
            final(session).mem_per_token == measured(
                old(session).mem_per_token,
                outcome.used_mem,
                input_tokens.len() as int,
            ),
            final(session).params == old(session).params,
            final(session).memory_k@ == with_batch(
                old(session).memory_k@,
                outcome.keys@,
                self.hparams,
                old(session).params.memory_k_type.spec_element_size(),
                old(session).n_past as int,
                input_tokens.len() as int,
            ),
            final(session).memory_v@ == with_batch(
                old(session).memory_v@,
                outcome.values@,
                self.hparams,
                old(session).params.memory_v_type.spec_element_size(),
                old(session).n_past as int,
                input_tokens.len() as int,
            ),
            final(session).last_n_tokens == old(session).last_n_tokens,
    {
        let n = input_tokens.len();
        write_batch(
            &mut session.memory_k,
            &outcome.keys,
            &self.hparams,
            session.params.memory_k_type.element_size(),
            session.n_past,
            n,
        );
        write_batch(
            &mut session.memory_v,
            &outcome.values,
            &self.hparams,
            session.params.memory_v_type.element_size(),
            session.n_past,
            n,
        );
        session.last_logits = outcome.logits;
        if session.mem_per_token == 0 {
            session.mem_per_token = outcome.used_mem / n;
        }
        session.n_past = session.n_past + n;
    }
}

} // verus!
