//! Choosing the next token.
//!
//! Every token is a candidate with the logit that the caller scaled by the
//! temperature, or with its bias where the policy gives it one: a bias is
//! not added to the logit, it takes its place. The candidates are partially
//! sorted by falling logit, in the IEEE 754 total order, and cut to the best
//! `top_k`; the first of them is chosen. The total order ranks every bit
//! pattern, infinities and NaNs included, so a token is chosen whatever the
//! logits hold.

use vstd::prelude::*;
use crate::bias::BiasPolicy;
use crate::ieee::{order_key, F32Bits};
use crate::model::Model;
use crate::params::InferenceParameters;
use crate::token::TokenId;
use crate::topk::{partial_sort_descending, partial_sorted, Scored};

verus! {

/// The logit with which token `id` competes: its bias where it has one, else
/// its scaled logit.
pub open spec fn effective<B: BiasPolicy>(bias: &B, scaled: Seq<F32Bits>, id: int) -> F32Bits {
    match bias.bias(id as TokenId) {
        Some(b) => b,
        None => scaled[id],
    }
}

/// The candidates: every token with the key of its effective logit.
pub open spec fn candidates<B: BiasPolicy>(bias: &B, scaled: Seq<F32Bits>) -> Seq<Scored> {
    Seq::new(scaled.len(), |id: int| (effective(bias, scaled, id).key() as i32, id as TokenId))
}

/// How many candidates are sorted: `top_k`, or all where there are fewer.
pub open spec fn kept(top_k: usize, n: nat) -> usize {
    if top_k <= n {
        top_k
    } else {
        n as usize
    }
}

/// The token that is chosen.
pub open spec fn selected<B: BiasPolicy>(bias: &B, scaled: Seq<F32Bits>, top_k: usize) -> TokenId {
    partial_sorted(candidates(bias, scaled), kept(top_k, scaled.len()))[0].1
}

/// Bit pattern of negative infinity.
pub const NEGATIVE_INFINITY_BITS: u32 = 0xFF80_0000;

/// A token that is biased to negative infinity is not chosen while any other
/// token ranks above negative infinity: chosen is a token that no other
/// token outranks.
pub proof fn lemma_suppressed_token_is_not_chosen<B: BiasPolicy>(
    bias: &B,
    scaled: Seq<F32Bits>,
    chosen: int,
    suppressed: TokenId,
    other: int,
)
    requires
        0 <= other < scaled.len(),
        bias.bias(suppressed) == Some(F32Bits { bits: NEGATIVE_INFINITY_BITS }),
        effective(bias, scaled, other).key() > order_key(NEGATIVE_INFINITY_BITS),
        forall|id: int|
            0 <= id < scaled.len() ==> effective(bias, scaled, chosen).key() >= #[trigger] effective(
                bias,
                scaled,
                id,
            ).key(),
    ensures
        chosen != suppressed,
{
    if chosen == suppressed {
        assert(effective(bias, scaled, chosen).key() >= effective(bias, scaled, other).key());
    }
}

/// Builds the candidates.
fn score<B: BiasPolicy>(bias: &B, scaled: &Vec<F32Bits>) -> (r: Vec<Scored>)
    requires
        scaled.len() <= 0x7FFF_FFFF,
    ensures
        r@ == candidates(bias, scaled@),
{
    let mut out: Vec<Scored> = Vec::with_capacity(scaled.len());
    let mut i: usize = 0;
    while i < scaled.len()
        invariant
            i <= scaled.len(),
            scaled.len() <= 0x7FFF_FFFF,
            out@ == candidates(bias, scaled@).subrange(0, i as int),
        decreases scaled.len() - i,
    {
        let id = i as TokenId;
        let logit = match bias.get(id) {
            Some(b) => b,
            None => scaled[i],
        };
        out.push((logit.total_order_key(), id));
        proof {
            assert(out@ =~= candidates(bias, scaled@).subrange(0, i + 1));
        }
        i = i + 1;
    }
    proof {
        assert(out@ =~= candidates(bias, scaled@));
    }
    out
}

/// Cuts the sorted candidates to the best `keep` and gives the token that
/// leads them.
pub fn leader(sorted: Vec<Scored>, keep: usize) -> (r: TokenId)
    requires
        1 <= keep <= sorted.len(),
    ensures
        r == sorted@[0].1,
{
    let mut best = sorted;
    best.truncate(keep);
    best[0].1
}

impl Model {
    /// Chooses the next token from the scaled logits `scaled`, one per
    /// vocabulary entry.
    ///
    /// The chosen token is a best one: no token has an effective logit that
    /// is greater in the total order. Among several best ones the partial
    /// sort decides, always in the same way.
    pub fn sample_top_p_top_k<B: BiasPolicy>(
        &self,
        scaled: &Vec<F32Bits>,
        params: &InferenceParameters<B>,
    ) -> (r: TokenId)
        requires
            1 <= scaled.len() <= 0x7FFF_FFFF,
            params.top_k >= 1,
        ensures
            r == selected(&params.bias_tokens, scaled@, params.top_k),
            r < scaled.len(),
            forall|id: int|
                0 <= id < scaled.len() ==> effective(&params.bias_tokens, scaled@, r as int).key()
                    >= #[trigger] effective(&params.bias_tokens, scaled@, id).key(),
    {
        let mut items = score(&params.bias_tokens, scaled);
        let ghost all = items@;
        let keep = if params.top_k <= items.len() {
            params.top_k
        } else {
            items.len()
        };
        partial_sort_descending(&mut items, keep);
        let ghost sorted = items@;
        proof {
            sorted.to_multiset_ensures();
            all.to_multiset_ensures();
            assert(sorted.len() == all.len());
        }
        let chosen = leader(items, keep);
        let ghost best = sorted[0];
        proof {
            assert(sorted.contains(best));
            assert(sorted.to_multiset().count(best) > 0);
            assert(all.contains(best));
            let at = choose|at: int| 0 <= at < all.len() && all[at] == best;
            assert(best.1 == at);
            assert forall|id: int| 0 <= id < scaled.len() implies effective(
                &params.bias_tokens,
                scaled@,
                best.1 as int,
            ).key() >= #[trigger] effective(&params.bias_tokens, scaled@, id).key() by {
                let other = all[id];
                assert(all.contains(other));
                assert(sorted.to_multiset().count(other) > 0);
                assert(sorted.contains(other));
                let pos = choose|pos: int| 0 <= pos < sorted.len() && sorted[pos] == other;
                if pos > 0 {
                    assert(sorted[0].0 >= sorted[pos].0);
                }
            }
        }
        chosen
    }
}

} // verus!
