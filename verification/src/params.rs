//! The parameters that drive generation.

use vstd::prelude::*;
use crate::bias::TokenBias;
use crate::ieee::F32Bits;

verus! {

/// Bit pattern of the default nucleus mass, `0.95`.
pub const DEFAULT_TOP_P_BITS: u32 = 0x3F73_3333;

/// Bit pattern of the default temperature, `0.1`.
pub const DEFAULT_TEMP_BITS: u32 = 0x3DCC_CCCD;

/// The parameters of generation, with the bias policy `B`.
///
/// `top_p` and `repeat_penalty` are carried for the caller; choosing the next
/// token does not consult them. `temp` is greater than zero; the caller
/// divides the logits by it before a token is chosen.
#[derive(Clone, Debug, PartialEq, Eq)]
pub struct InferenceParameters<B> {
    pub n_threads: i32,
    pub n_batch: usize,
    /// How many of the best tokens stay candidates; at least 1.
    pub top_k: usize,
    pub top_p: F32Bits,
    pub repeat_penalty: F32Bits,
    pub temp: F32Bits,
    pub bias_tokens: B,
}

impl Default for InferenceParameters<TokenBias> {
    /// Four threads, batches of one, the single best token, nucleus mass
    /// `0.95`, no repetition penalty, temperature `0.1`, no bias.
    fn default() -> (r: Self)
        ensures
            r.n_threads == 4,
            r.n_batch == 1,
            r.top_k == 1,
            r.top_p.bits == DEFAULT_TOP_P_BITS,
            r.repeat_penalty.bits == 0,
            r.temp.bits == DEFAULT_TEMP_BITS,
            r.bias_tokens@ == Seq::<(u32, F32Bits)>::empty(),
    {
        InferenceParameters {
            n_threads: 4,
            n_batch: 1,
            top_k: 1,
            top_p: F32Bits::from_bits(DEFAULT_TOP_P_BITS),
            repeat_penalty: F32Bits::zero(),
            temp: F32Bits::from_bits(DEFAULT_TEMP_BITS),
            bias_tokens: TokenBias::default(),
        }
    }
}

} // verus!
