//! The state of one generation stream: key/value memory, the count of
//! positions written to it, the most recent tokens and the last logits.

use std::collections::VecDeque;
use vstd::prelude::*;
use crate::element::ModelKVMemoryType;
use crate::hparams::Hyperparameters;
use crate::ieee::F32Bits;
use crate::model::{memory_elements, Model};
use crate::token::TokenId;

verus! {

/// Parameters of a session.
#[derive(Clone, Copy, Debug, PartialEq, Eq, Structural)]
pub struct InferenceSessionParameters {
    /// How many of the most recent tokens are remembered.
    pub last_n_size: usize,
    pub memory_k_type: ModelKVMemoryType,
    pub memory_v_type: ModelKVMemoryType,
}

impl Default for InferenceSessionParameters {
    fn default() -> (r: Self)
        ensures
            r == (InferenceSessionParameters {
                last_n_size: 512,
                memory_k_type: ModelKVMemoryType::Float32,
                memory_v_type: ModelKVMemoryType::Float32,
            }),
    {
        InferenceSessionParameters {
            last_n_size: 512,
            memory_k_type: ModelKVMemoryType::Float32,
            memory_v_type: ModelKVMemoryType::Float32,
        }
    }
}

/// The state of text generation on one model.
///
/// `memory_k` and `memory_v` are flat: the row of `d_model` elements for
/// layer `l` and position `p` starts at element `(l * n_ctx + p) * d_model`.
#[derive(Debug, PartialEq, Eq)]
pub struct InferenceSession {
    pub params: InferenceSessionParameters,
    pub memory_k: Vec<u8>,
    pub memory_v: Vec<u8>,
    /// How many positions of the memory hold keys and values.
    pub n_past: usize,
    /// Scratch memory that a forward pass needs per token; 0 until measured.
    pub mem_per_token: usize,
    /// The most recent tokens, newest first.
    pub last_n_tokens: VecDeque<TokenId>,
    /// The logits of the last position of the last forward pass.
    pub last_logits: Vec<F32Bits>,
}

/// An [`InferenceSession`] with its memories, ring and logits as sequences.
pub struct SessionView {
    pub params: InferenceSessionParameters,
    pub memory_k: Seq<u8>,
    pub memory_v: Seq<u8>,
    pub n_past: usize,
    pub mem_per_token: usize,
    pub last_n_tokens: Seq<TokenId>,
    pub last_logits: Seq<F32Bits>,
}

impl View for InferenceSession {
    type V = SessionView;

    open spec fn view(&self) -> SessionView {
        SessionView {
            params: self.params,
            memory_k: self.memory_k@,
            memory_v: self.memory_v@,
            n_past: self.n_past,
            mem_per_token: self.mem_per_token,
            last_n_tokens: self.last_n_tokens@,
            last_logits: self.last_logits@,
        }
    }
}

impl SessionView {
    /// The session fits a model with hyperparameters `h`: the positions
    /// written are within the context window, there is one logit per
    /// vocabulary entry, the ring has its size, and the memories have theirs.
    pub open spec fn wf(self, h: Hyperparameters) -> bool {
        &&& 0 <= self.n_past <= h.max_seq_len
        &&& self.last_logits.len() == h.n_vocab
        &&& self.last_n_tokens.len() == self.params.last_n_size
        &&& self.memory_k.len() == memory_bytes(h, self.params.memory_k_type)
        &&& self.memory_v.len() == memory_bytes(h, self.params.memory_v_type)
    }
}

/// The ring `ring` after `token` has been pushed to its front and the oldest
/// token has been dropped from its back.
pub open spec fn pushed(ring: Seq<TokenId>, token: TokenId) -> Seq<TokenId> {
    (seq![token] + ring).subrange(0, ring.len() as int)
}

/// The ring `ring` after the tokens `tokens` have been pushed to it one
/// after the other, the first of them first.
pub open spec fn pushed_all(ring: Seq<TokenId>, tokens: Seq<TokenId>) -> Seq<TokenId>
    decreases tokens.len(),
{
    if tokens.len() == 0 {
        ring
    } else {
        pushed(pushed_all(ring, tokens.drop_last()), tokens.last())
    }
}

/// After the tokens of a prompt have been pushed, the ring has its length
/// and holds the newest tokens first: it is the start of the tokens in
/// reverse order, followed by what the ring held.
pub proof fn lemma_ring_after_tokens(ring: Seq<TokenId>, tokens: Seq<TokenId>)
    ensures
        pushed_all(ring, tokens).len() == ring.len(),
        pushed_all(ring, tokens) == (tokens.reverse() + ring).subrange(0, ring.len() as int),
    decreases tokens.len(),
{
    if tokens.len() == 0 {
        assert(pushed_all(ring, tokens) =~= (tokens.reverse() + ring).subrange(
            0,
            ring.len() as int,
        ));
    } else {
        let earlier = tokens.drop_last();
        let newest = tokens.last();
        lemma_ring_after_tokens(ring, earlier);
        let before = pushed_all(ring, earlier);
        let after = pushed(before, newest);
        let all = (tokens.reverse() + ring).subrange(0, ring.len() as int);
        assert(after.len() == ring.len());
        assert forall|i: int| 0 <= i < ring.len() implies after[i] == all[i] by {
            if i > 0 {
                assert(after[i] == before[i - 1]);
                if i - 1 < earlier.len() {
                    assert(earlier.reverse()[i - 1] == tokens.reverse()[i]);
                }
            }
        }
        assert(after =~= all);
    }
}

/// Bytes of a memory of element type `t` for a model with hyperparameters `h`.
pub open spec fn memory_bytes(h: Hyperparameters, t: ModelKVMemoryType) -> int {
    memory_elements(h) * t.spec_element_size()
}

impl InferenceSession {
    /// The session fits a model with hyperparameters `h`.
    pub open spec fn wf(self, h: Hyperparameters) -> bool {
        self@.wf(h)
    }

    /// Nothing has been fed: no position is written, and the ring, the
    /// logits and the memories are zero.
    pub open spec fn fresh(self) -> bool {
        &&& self.n_past == 0
        &&& self.mem_per_token == 0
        &&& forall|i: int| 0 <= i < self.last_n_tokens@.len() ==> self.last_n_tokens@[i] == 0
        &&& forall|i: int| 0 <= i < self.last_logits.len() ==> self.last_logits[i].bits == 0
        &&& forall|i: int| 0 <= i < self.memory_k.len() ==> self.memory_k[i] == 0
        &&& forall|i: int| 0 <= i < self.memory_v.len() ==> self.memory_v[i] == 0
    }

    /// Remembers `token` as the most recent one, forgetting the oldest. The
    /// ring keeps its length.
    pub fn push_token(&mut self, token: TokenId)
        ensures
            final(self).last_n_tokens@ == pushed(old(self).last_n_tokens@, token),
            final(self).last_n_tokens@.len() == old(self).last_n_tokens@.len(),
            final(self).params == old(self).params,
            final(self).memory_k == old(self).memory_k,
            final(self).memory_v == old(self).memory_v,
            final(self).n_past == old(self).n_past,
            final(self).mem_per_token == old(self).mem_per_token,
            final(self).last_logits == old(self).last_logits,
    {
        let length = self.last_n_tokens.len();
        self.last_n_tokens.push_front(token);
        self.last_n_tokens.truncate(length);
    }
}

impl InferenceSession {
    /// Remembers the tokens `tokens`, the first of them first, so that the
    /// last of them is the most recent one. The ring keeps its length.
    pub fn push_tokens(&mut self, tokens: &[TokenId])
        ensures
            final(self).last_n_tokens@ == pushed_all(old(self).last_n_tokens@, tokens@),
            final(self).last_n_tokens@.len() == old(self).last_n_tokens@.len(),
            final(self).params == old(self).params,
            final(self).memory_k == old(self).memory_k,
            final(self).memory_v == old(self).memory_v,
            final(self).n_past == old(self).n_past,
            final(self).mem_per_token == old(self).mem_per_token,
            final(self).last_logits == old(self).last_logits,
    {
        let mut i: usize = 0;
        proof {
            assert(tokens@.subrange(0, 0) =~= Seq::<TokenId>::empty());
        }
        while i < tokens.len()
            invariant
                i <= tokens.len(),
                self.last_n_tokens@ == pushed_all(
                    old(self).last_n_tokens@,
                    tokens@.subrange(0, i as int),
                ),
                self.last_n_tokens@.len() == old(self).last_n_tokens@.len(),
                self.params == old(self).params,
                self.memory_k == old(self).memory_k,
                self.memory_v == old(self).memory_v,
                self.n_past == old(self).n_past,
                self.mem_per_token == old(self).mem_per_token,
                self.last_logits == old(self).last_logits,
            decreases tokens.len() - i,
        {
            self.push_token(tokens[i]);
            proof {
                let seen = tokens@.subrange(0, i + 1);
                assert(seen.drop_last() =~= tokens@.subrange(0, i as int));
                assert(seen.last() == tokens@[i as int]);
            }
            i = i + 1;
        }
        proof {
            assert(tokens@.subrange(0, tokens.len() as int) =~= tokens@);
        }
    }
}

impl Model {
    /// Starts a session on this model: nothing fed, the ring of
    /// `params.last_n_size` zeros, one zero logit per vocabulary entry, and
    /// zeroed memories of the configured element types.
    pub fn start_session(&self, params: InferenceSessionParameters) -> (s: InferenceSession)
        requires
            self.wf(),
        ensures
            s.wf(self.hparams),
            s.fresh(),
            s.params == params,
    {
        let h = &self.hparams;
        assert(0 <= h.max_seq_len * h.n_layers <= 0x8000_0000 * 0x8000_0000 && 0 <= h.max_seq_len
            * h.n_layers * h.d_model) by (nonlinear_arith)
            requires
                0 <= h.max_seq_len <= 0x8000_0000,
                0 <= h.n_layers <= 0x8000_0000,
                0 <= h.d_model <= 0x8000_0000,
        ;
        let elements: usize = {
            let wide: u64 = (h.max_seq_len as u64) * (h.n_layers as u64);
            assert(wide * h.d_model <= 4 * (wide * h.d_model)) by (nonlinear_arith)
                requires
                    0 <= wide * h.d_model,
            ;
            ((wide as u128) * (h.d_model as u128)) as usize
        };
        assert(elements * 2 <= elements * 4) by (nonlinear_arith)
            requires
                elements >= 0,
        ;
        let memory_k: Vec<u8> = vec![0u8; elements * params.memory_k_type.element_size()];
        let memory_v: Vec<u8> = vec![0u8; elements * params.memory_v_type.element_size()];
        let mut last_n_tokens: VecDeque<TokenId> = VecDeque::new();
        last_n_tokens.resize(params.last_n_size, 0);
        let last_logits: Vec<F32Bits> = vec![F32Bits::zero(); h.n_vocab as usize];
        InferenceSession {
            params,
            memory_k,
            memory_v,
            n_past: 0,
            mem_per_token: 0,
            last_n_tokens,
            last_logits,
        }
    }
}

} // verus!
