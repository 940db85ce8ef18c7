//! Snapshots of a session: what has to be kept to resume generation where a
//! session stands.

use std::collections::VecDeque;
use vstd::prelude::*;
use vstd::slice::slice_to_vec;
use crate::error::SnapshotError;
use crate::hparams::Hyperparameters;
use crate::ieee::F32Bits;
use crate::model::Model;
use crate::session::{memory_bytes, InferenceSession, InferenceSessionParameters, SessionView};
use crate::token::TokenId;

verus! {

/// A snapshot that borrows the memories of the session it was taken of.
#[derive(Debug, PartialEq, Eq)]
pub struct InferenceSnapshotRef<'a> {
    /// How many positions of the memories are written.
    pub npast: usize,
    pub session_params: InferenceSessionParameters,
    pub memory_k: &'a [u8],
    pub memory_v: &'a [u8],
    pub last_n_tokens: VecDeque<TokenId>,
    pub logits: Vec<F32Bits>,
}

/// A snapshot that owns its memories.
#[derive(Clone, Debug, PartialEq, Eq)]
pub struct InferenceSnapshot {
    /// How many positions of the memories are written.
    pub npast: usize,
    pub session_params: InferenceSessionParameters,
    pub memory_k: Vec<u8>,
    pub memory_v: Vec<u8>,
    pub last_n_tokens: VecDeque<TokenId>,
    pub last_logits: Vec<F32Bits>,
}

/// What a snapshot holds.
pub struct SnapshotView {
    pub npast: usize,
    pub session_params: InferenceSessionParameters,
    pub memory_k: Seq<u8>,
    pub memory_v: Seq<u8>,
    pub last_n_tokens: Seq<TokenId>,
    pub last_logits: Seq<F32Bits>,
}

impl<'a> View for InferenceSnapshotRef<'a> {
    type V = SnapshotView;

    open spec fn view(&self) -> SnapshotView {
        SnapshotView {
            npast: self.npast,
            session_params: self.session_params,
            memory_k: self.memory_k@,
            memory_v: self.memory_v@,
            last_n_tokens: self.last_n_tokens@,
            last_logits: self.logits@,
        }
    }
}

impl View for InferenceSnapshot {
    type V = SnapshotView;

    open spec fn view(&self) -> SnapshotView {
        SnapshotView {
            npast: self.npast,
            session_params: self.session_params,
            memory_k: self.memory_k@,
            memory_v: self.memory_v@,
            last_n_tokens: self.last_n_tokens@,
            last_logits: self.last_logits@,
        }
    }
}

/// The snapshot of a session: everything but the measured need per token.
pub open spec fn snapshot_of(s: SessionView) -> SnapshotView {
    SnapshotView {
        npast: s.n_past,
        session_params: s.params,
        memory_k: s.memory_k,
        memory_v: s.memory_v,
        last_n_tokens: s.last_n_tokens,
        last_logits: s.last_logits,
    }
}

/// The sum of two sizes, or the largest size where the sum is larger.
pub open spec fn total(a: int, b: int) -> usize {
    if a + b <= usize::MAX {
        (a + b) as usize
    } else {
        usize::MAX
    }
}

/// The parameters of the session that a snapshot is restored into: those of
/// the snapshot, with a ring as long as the snapshot's.
pub open spec fn restored_params(snapshot: SnapshotView) -> InferenceSessionParameters {
    InferenceSessionParameters {
        last_n_size: snapshot.last_n_tokens.len() as usize,
        ..snapshot.session_params
    }
}

/// The memories of the snapshot have the sizes of those of a session with
/// the snapshot's element types on a model with hyperparameters `h`.
pub open spec fn memory_matches(h: Hyperparameters, snapshot: SnapshotView) -> bool {
    &&& snapshot.memory_k.len() == memory_bytes(h, snapshot.session_params.memory_k_type)
    &&& snapshot.memory_v.len() == memory_bytes(h, snapshot.session_params.memory_v_type)
}

/// The session that restoring `snapshot` on a model with hyperparameters `h`
/// gives, or the mismatch of the memory sizes.
pub open spec fn restored(h: Hyperparameters, snapshot: SnapshotView) -> Result<
    SessionView,
    SnapshotError,
> {
    if memory_matches(h, snapshot) {
        Ok(
            SessionView {
                params: restored_params(snapshot),
                memory_k: snapshot.memory_k,
                memory_v: snapshot.memory_v,
                n_past: snapshot.npast,
                mem_per_token: 0,
                last_n_tokens: snapshot.last_n_tokens,
                last_logits: snapshot.last_logits,
            },
        )
    } else {
        Err(
            SnapshotError::MemorySizeMismatch {
                self_size: total(
                    memory_bytes(h, snapshot.session_params.memory_k_type),
                    memory_bytes(h, snapshot.session_params.memory_v_type),
                ),
                input_size: total(snapshot.memory_k.len() as int, snapshot.memory_v.len() as int),
            },
        )
    }
}

/// The snapshot can be restored on a model with hyperparameters `h` without
/// breaking what holds of every session: its positions are within the
/// context window and it has one logit per vocabulary entry.
pub open spec fn restorable(h: Hyperparameters, snapshot: SnapshotView) -> bool {
    snapshot.npast <= h.max_seq_len && snapshot.last_logits.len() == h.n_vocab
}

impl InferenceSession {
    /// A snapshot of the session as it stands. It borrows the memories, so
    /// the session cannot change while the snapshot is in use.
    pub fn get_snapshot(&self) -> (r: InferenceSnapshotRef<'_>)
        ensures
            r@ == snapshot_of(self@),
    {
        let last_n_tokens = self.last_n_tokens.clone();
        let logits = self.last_logits.clone();
        proof {
            assert(last_n_tokens@ =~= self.last_n_tokens@);
            assert(logits@ =~= self.last_logits@);
        }
        InferenceSnapshotRef {
            npast: self.n_past,
            session_params: self.params,
            memory_k: self.memory_k.as_slice(),
            memory_v: self.memory_v.as_slice(),
            last_n_tokens,
            logits,
        }
    }
}

impl<'a> InferenceSnapshotRef<'a> {
    /// A snapshot of its own, with copies of the memories.
    pub fn to_snapshot(&self) -> (r: InferenceSnapshot)
        ensures
            r@ == self@,
    {
        let last_n_tokens = self.last_n_tokens.clone();
        let last_logits = self.logits.clone();
        proof {
            assert(last_n_tokens@ =~= self.last_n_tokens@);
            assert(last_logits@ =~= self.logits@);
        }
        InferenceSnapshot {
            npast: self.npast,
            session_params: self.session_params,
            memory_k: slice_to_vec(self.memory_k),
            memory_v: slice_to_vec(self.memory_v),
            last_n_tokens,
            last_logits,
        }
    }
}

impl InferenceSnapshot {
    /// Whether the snapshot can be restored on a model with hyperparameters
    /// `h`.
    pub fn is_restorable(&self, h: &Hyperparameters) -> (r: bool)
        ensures
            r == (h.max_seq_len >= 0 && h.n_vocab >= 0 && restorable(*h, self@)),
    {
        h.max_seq_len >= 0 && h.n_vocab >= 0 && self.npast <= h.max_seq_len as usize
            && self.last_logits.len() == h.n_vocab as usize
    }
}

impl Model {
    /// Restores a session from `snapshot`: its memories, positions, ring and
    /// logits, with the need per token to be measured anew. Fails with
    /// `MemorySizeMismatch` where a memory of the snapshot does not have the
    /// size that this model gives it.
    pub fn session_from_snapshot(&self, snapshot: InferenceSnapshot) -> (r: Result<
        InferenceSession,
        SnapshotError,
    >)
        requires
            self.wf(),
            restorable(self.hparams, snapshot@),
        ensures
            match restored(self.hparams, snapshot@) {
                Ok(session) => r is Ok && r->Ok_0@ == session && r->Ok_0.wf(self.hparams),
                Err(e) => r == Err::<InferenceSession, SnapshotError>(e),
            },
    {
        let h = &self.hparams;
        assert(0 <= h.max_seq_len * h.n_layers <= 0x8000_0000 * 0x8000_0000 && 0 <= h.max_seq_len
            * h.n_layers * h.d_model) by (nonlinear_arith)
            requires
                0 <= h.max_seq_len <= 0x8000_0000,
                0 <= h.n_layers <= 0x8000_0000,
                0 <= h.d_model <= 0x8000_0000,
        ;
        let elements: usize = {
            let wide: u64 = (h.max_seq_len as u64) * (h.n_layers as u64);
            assert(wide * h.d_model <= 4 * (wide * h.d_model)) by (nonlinear_arith)
                requires
                    0 <= wide * h.d_model,
            ;
            ((wide as u128) * (h.d_model as u128)) as usize
        };
        assert(elements * 2 <= elements * 4) by (nonlinear_arith)
            requires
                elements >= 0,
        ;
        let key_bytes = elements * snapshot.session_params.memory_k_type.element_size();
        let value_bytes = elements * snapshot.session_params.memory_v_type.element_size();
        if key_bytes != snapshot.memory_k.len() || value_bytes != snapshot.memory_v.len() {
            return Err(
                SnapshotError::MemorySizeMismatch {
                    self_size: key_bytes.saturating_add(value_bytes),
                    input_size: snapshot.memory_k.len().saturating_add(snapshot.memory_v.len()),
                },
            );
        }
        let params = InferenceSessionParameters {
            last_n_size: snapshot.last_n_tokens.len(),
            ..snapshot.session_params
        };
        Ok(
            InferenceSession {
                params,
                memory_k: snapshot.memory_k,
                memory_v: snapshot.memory_v,
                n_past: snapshot.npast,
                mem_per_token: 0,
                last_n_tokens: snapshot.last_n_tokens,
                last_logits: snapshot.last_logits,
            },
        )
    }
}

} // verus!
