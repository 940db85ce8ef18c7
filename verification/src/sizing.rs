//! Sizes of the arenas that the tensor runtime is asked for.
//!
//! Every product is taken over the mathematical integers; storage of a
//! blocked type is rounded down to whole bytes, term by term.

use vstd::prelude::*;
use crate::arith::lemma_mul_bound;
use crate::element::{BlockLayout, MAX_BLOCK};
use crate::hparams::Hyperparameters;
use crate::session::{memory_bytes, InferenceSessionParameters};

verus! {

/// Bytes of bookkeeping that the runtime needs per object.
pub const OBJECT_OVERHEAD: usize = 256;

/// Size of the weight arena for a model with hyperparameters `h`, a context
/// of `n_ctx` positions and weights laid out as `w`:
///
/// - the token embedding, `n_vocab * d_model` elements;
/// - per layer, the first norm at four bytes per element, the fused
///   query/key/value projection, the output projection, the second norm,
///   and the two feed-forward matrices;
/// - key and value memory at four bytes per element;
/// - the overhead of `6 + 16 * n_layers` objects.
pub open spec fn weight_context_bytes(h: Hyperparameters, n_ctx: int, w: BlockLayout) -> int {
    let d = h.d_model as int;
    let l = h.n_layers as int;
    let v = h.n_vocab as int;
    w.bytes_for(d * v) + 4 * (l * d) + w.bytes_for(l * d * d * 3) + w.bytes_for(l * d * d)
        + w.bytes_for(l * d) + w.bytes_for(l * 4 * d * d) + w.bytes_for(l * d * d * 4) + 2 * (4 * (n_ctx
        * l * d)) + (6 + 16 * l) * 256
}

/// Computes [`weight_context_bytes`]. `None` when a dimension or `n_ctx` is
/// negative, or the size does not fit the machine's word.
pub fn weight_context_size(h: &Hyperparameters, n_ctx: i32, w: BlockLayout) -> (r: Option<usize>)
    requires
        w.wf(),
    ensures
        r is Some <==> h.d_model >= 0 && h.n_layers >= 0 && h.n_vocab >= 0 && n_ctx >= 0
            && weight_context_bytes(*h, n_ctx as int, w) <= usize::MAX,
        r is Some ==> r->0 == weight_context_bytes(*h, n_ctx as int, w),
{
    if h.d_model < 0 || h.n_layers < 0 || h.n_vocab < 0 || n_ctx < 0 {
        return None;
    }
    let d: u128 = h.d_model as u128;
    let l: u128 = h.n_layers as u128;
    let v: u128 = h.n_vocab as u128;
    let c: u128 = n_ctx as u128;
    proof {
        lemma_mul_bound(d as int, v as int, 0x8000_0000, 0x8000_0000);
        lemma_mul_bound(l as int, d as int, 0x8000_0000, 0x8000_0000);
        lemma_mul_bound(l * d, d as int, 0x4000_0000_0000_0000, 0x8000_0000);
        lemma_mul_bound(l * d * d, 3, 0x2000_0000_0000_0000_0000_0000, 3);
        lemma_mul_bound(l * d * d, 4, 0x2000_0000_0000_0000_0000_0000, 4);
        lemma_mul_bound(l as int, 4, 0x8000_0000, 4);
        lemma_mul_bound(l * 4, d as int, 0x2_0000_0000, 0x8000_0000);
        lemma_mul_bound(l * 4 * d, d as int, 0x1_0000_0000_0000_0000, 0x8000_0000);
        lemma_mul_bound(c as int, l as int, 0x8000_0000, 0x8000_0000);
        lemma_mul_bound(c * l, d as int, 0x4000_0000_0000_0000, 0x8000_0000);
    }
    let dv = d * v;
    let ld = l * d;
    let ldd = ld * d;
    let ldd3 = ldd * 3;
    let ldd4 = ldd * 4;
    let l4dd = l * 4 * d * d;
    let cld = c * l * d;
    let wte = w.storage_bytes(dv);
    let ln_1 = 4 * ld;
    let wqkv = w.storage_bytes(ldd3);
    let out_proj = w.storage_bytes(ldd);
    let ln_2 = w.storage_bytes(ld);
    let mlp_up = w.storage_bytes(l4dd);
    let mlp_down = w.storage_bytes(ldd4);
    let memory = 2 * (4 * cld);
    let overhead = (6 + 16 * l) * 256;
    proof {
        lemma_mul_bound(dv as int, MAX_BLOCK as int, 0x1_0000_0000_0000_0000_0000_0000, 0xFFFF);
        lemma_mul_bound(ldd3 as int, MAX_BLOCK as int, 0x1_0000_0000_0000_0000_0000_0000, 0xFFFF);
        lemma_mul_bound(ldd as int, MAX_BLOCK as int, 0x1_0000_0000_0000_0000_0000_0000, 0xFFFF);
        lemma_mul_bound(ld as int, MAX_BLOCK as int, 0x1_0000_0000_0000_0000_0000_0000, 0xFFFF);
        lemma_mul_bound(l4dd as int, MAX_BLOCK as int, 0x1_0000_0000_0000_0000_0000_0000, 0xFFFF);
        lemma_mul_bound(ldd4 as int, MAX_BLOCK as int, 0x1_0000_0000_0000_0000_0000_0000, 0xFFFF);
    }
    let total = wte + ln_1 + wqkv + out_proj + ln_2 + mlp_up + mlp_down + memory + overhead;
    if total > usize::MAX as u128 {
        None
    } else {
        Some(total as usize)
    }
}

/// Size of the arena of a session with parameters `params`: the key memory,
/// the value memory, and the overhead of `5 + 10 * n_layers` objects.
pub open spec fn session_context_bytes(h: Hyperparameters, params: InferenceSessionParameters) -> int {
    memory_bytes(h, params.memory_k_type) + memory_bytes(h, params.memory_v_type) + (5 + 10
        * h.n_layers) * 256
}

/// Computes [`session_context_bytes`]. `None` when a dimension is negative or
/// the size does not fit the machine's word.
pub fn session_context_size(h: &Hyperparameters, params: &InferenceSessionParameters) -> (r:
    Option<usize>)
    ensures
        r is Some <==> h.d_model >= 0 && h.max_seq_len >= 0 && h.n_layers >= 0
            && session_context_bytes(*h, *params) <= usize::MAX,
        r is Some ==> r->0 == session_context_bytes(*h, *params),
{
    if h.d_model < 0 || h.max_seq_len < 0 || h.n_layers < 0 {
        return None;
    }
    proof {
        lemma_mul_bound(h.max_seq_len as int, h.n_layers as int, 0x8000_0000, 0x8000_0000);
        lemma_mul_bound(
            h.max_seq_len * h.n_layers,
            h.d_model as int,
            0x4000_0000_0000_0000,
            0x8000_0000,
        );
    }
    let elements: u128 = (h.max_seq_len as u128) * (h.n_layers as u128) * (h.d_model as u128);
    let key_size = params.memory_k_type.element_size();
    let value_size = params.memory_v_type.element_size();
    proof {
        lemma_mul_bound(elements as int, key_size as int, 0x2000_0000_0000_0000_0000_0000, 4);
        lemma_mul_bound(elements as int, value_size as int, 0x2000_0000_0000_0000_0000_0000, 4);
    }
    let key = elements * (params.memory_k_type.element_size() as u128);
    let value = elements * (params.memory_v_type.element_size() as u128);
    let overhead: u128 = (5 + 10 * (h.n_layers as u128)) * 256;
    let total = key + value + overhead;
    if total > usize::MAX as u128 {
        None
    } else {
        Some(total as usize)
    }
}

} // verus!
