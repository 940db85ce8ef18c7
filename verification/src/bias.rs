//! Biases on tokens: values that take the place of a token's logit when the
//! next token is chosen.

use vstd::prelude::*;
use crate::ieee::F32Bits;
use crate::token::TokenId;

pub mod fence;
pub mod item;
pub mod response;

verus! {

/// Something that may give a token a bias. The sampler asks for every token
/// at every step.
pub trait BiasPolicy {
    /// The bias of `tid`, if it has one.
    spec fn bias(&self, tid: TokenId) -> Option<F32Bits>;

    fn get(&self, tid: TokenId) -> (r: Option<F32Bits>)
        ensures
            r == self.bias(tid),
    ;
}

/// The bias of the first pair of `pairs` that names `tid`.
pub open spec fn first_bias(pairs: Seq<(TokenId, F32Bits)>, tid: TokenId) -> Option<F32Bits>
    decreases pairs.len(),
{
    if pairs.len() == 0 {
        None
    } else if pairs[0].0 == tid {
        Some(pairs[0].1)
    } else {
        first_bias(pairs.drop_first(), tid)
    }
}

/// The ids of `pairs` increase strictly.
pub open spec fn increasing(pairs: Seq<(TokenId, F32Bits)>) -> bool {
    forall|i: int, j: int| 0 <= i < j < pairs.len() ==> pairs[i].0 < pairs[j].0
}

/// A fixed table of biases: pairs of token id and bias, sorted by id, each
/// id at most once.
#[derive(Debug, PartialEq, Eq)]
pub struct TokenBias {
    entries: Vec<(TokenId, F32Bits)>,
}

impl Clone for TokenBias {
    fn clone(&self) -> (r: TokenBias)
        ensures
            r@ == self@,
    {
        proof {
            use_type_invariant(self);
        }
        let mut entries: Vec<(TokenId, F32Bits)> = Vec::new();
        let mut i: usize = 0;
        while i < self.entries.len()
            invariant
                i <= self.entries.len(),
                entries@ == self.entries@.subrange(0, i as int),
            decreases self.entries.len() - i,
        {
            entries.push(self.entries[i]);
            proof {
                assert(entries@ =~= self.entries@.subrange(0, i + 1));
            }
            i = i + 1;
        }
        proof {
            assert(entries@ =~= self.entries@);
        }
        TokenBias { entries }
    }
}

impl View for TokenBias {
    type V = Seq<(TokenId, F32Bits)>;

    closed spec fn view(&self) -> Seq<(TokenId, F32Bits)> {
        self.entries@
    }
}

impl Default for TokenBias {
    /// The empty table.
    fn default() -> (r: TokenBias)
        ensures
            r@ == Seq::<(TokenId, F32Bits)>::empty(),
    {
        TokenBias { entries: Vec::new() }
    }
}

proof fn lemma_first_bias_absent(pairs: Seq<(TokenId, F32Bits)>, tid: TokenId)
    requires
        forall|j: int| 0 <= j < pairs.len() ==> pairs[j].0 != tid,
    ensures
        first_bias(pairs, tid) is None,
    decreases pairs.len(),
{
    if pairs.len() > 0 {
        lemma_first_bias_absent(pairs.drop_first(), tid);
    }
}

proof fn lemma_first_bias_unique(pairs: Seq<(TokenId, F32Bits)>, at: int)
    requires
        increasing(pairs),
        0 <= at < pairs.len(),
    ensures
        first_bias(pairs, pairs[at].0) == Some(pairs[at].1),
    decreases pairs.len(),
{
    if at > 0 {
        let rest = pairs.drop_first();
        assert(increasing(rest)) by {
            assert forall|i: int, j: int| 0 <= i < j < rest.len() implies rest[i].0 < rest[j].0 by {
                assert(pairs[i + 1].0 < pairs[j + 1].0);
            }
        }
        assert(rest[at - 1] == pairs[at]);
        lemma_first_bias_unique(rest, at - 1);
    }
}

proof fn lemma_first_bias_push(
    pairs: Seq<(TokenId, F32Bits)>,
    pair: (TokenId, F32Bits),
    tid: TokenId,
)
    ensures
        first_bias(pairs.push(pair), tid) == match first_bias(pairs, tid) {
            Some(b) => Some(b),
            None => if pair.0 == tid {
                Some(pair.1)
            } else {
                None
            },
        },
    decreases pairs.len(),
{
    if pairs.len() == 0 {
        assert(pairs.push(pair).drop_first() =~= pairs);
    } else {
        assert(pairs.push(pair).drop_first() =~= pairs.drop_first().push(pair));
        lemma_first_bias_push(pairs.drop_first(), pair, tid);
    }
}

proof fn lemma_first_bias_insert(
    pairs: Seq<(TokenId, F32Bits)>,
    at: int,
    pair: (TokenId, F32Bits),
    tid: TokenId,
)
    requires
        0 <= at <= pairs.len(),
        forall|j: int| 0 <= j < pairs.len() ==> pairs[j].0 != pair.0,
    ensures
        first_bias(pairs.insert(at, pair), tid) == if tid == pair.0 {
            Some(pair.1)
        } else {
            first_bias(pairs, tid)
        },
    decreases at,
{
    let grown = pairs.insert(at, pair);
    if at == 0 {
        assert(grown.drop_first() =~= pairs);
        if tid == pair.0 {
        } else {
        }
    } else {
        assert(grown[0] == pairs[0]);
        assert(grown.drop_first() =~= pairs.drop_first().insert(at - 1, pair));
        assert forall|j: int| 0 <= j < pairs.drop_first().len() implies pairs.drop_first()[j].0
            != pair.0 by {
            assert(pairs[j + 1].0 != pair.0);
        }
        lemma_first_bias_insert(pairs.drop_first(), at - 1, pair, tid);
    }
}

impl TokenBias {
    #[verifier::type_invariant]
    spec fn sorted(self) -> bool {
        increasing(self.entries@)
    }

    /// The table of `pairs`: sorted by id, and of several pairs with one id
    /// the first.
    pub fn new(pairs: Vec<(TokenId, F32Bits)>) -> (r: TokenBias)
        ensures
            increasing(r@),
            forall|tid: TokenId| first_bias(r@, tid) == first_bias(pairs@, tid),
    {        let mut entries: Vec<(TokenId, F32Bits)> = Vec::new();
        let mut i: usize = 0;
        while i < pairs.len()
            invariant
                i <= pairs.len(),
                increasing(entries@),
                forall|tid: TokenId|
                    first_bias(entries@, tid) == first_bias(pairs@.subrange(0, i as int), tid),
            decreases pairs.len() - i,
        {
            let pair = pairs[i];
            let mut at: usize = 0;
            while at < entries.len() && entries[at].0 < pair.0
                invariant
                    at <= entries.len(),
                    increasing(entries@),
                    forall|j: int| 0 <= j < at ==> entries@[j].0 < pair.0,
                decreases entries.len() - at,
            {
                at = at + 1;
            }
            let ghost before = entries@;
            let ghost seen = pairs@.subrange(0, i as int);
            proof {
                assert(pairs@.subrange(0, i + 1) =~= seen.push(pair));
            }
            if at < entries.len() && entries[at].0 == pair.0 {
                proof {
                    lemma_first_bias_unique(before, at as int);
                    assert forall|tid: TokenId|
                        first_bias(before, tid) == first_bias(seen.push(pair), tid) by {
                        lemma_first_bias_push(seen, pair, tid);
                    }
                }
            } else {
                entries.insert(at, pair);
                proof {
                    assert forall|j: int| 0 <= j < before.len() implies before[j].0 != pair.0 by {
                        if j >= at {
                            assert(before[at as int].0 <= before[j].0);
                        }
                    }
                    lemma_first_bias_absent(before, pair.0);
                    assert forall|tid: TokenId|
                        first_bias(entries@, tid) == first_bias(seen.push(pair), tid) by {
                        lemma_first_bias_insert(before, at as int, pair, tid);
                        lemma_first_bias_push(seen, pair, tid);
                    }
                    assert(increasing(entries@)) by {
                        assert forall|a: int, b: int| 0 <= a < b < entries@.len() implies entries@[a].0
                            < entries@[b].0 by {
                            if b < at {
                                assert(before[a].0 < before[b].0);
                            } else if b == at {
                                assert(before[a].0 < pair.0);
                            } else if a < at {
                                assert(before[a].0 < before[b - 1].0);
                            } else if a == at {
                                assert(before[at as int].0 <= before[b - 1].0);
                            } else {
                                assert(before[a - 1].0 < before[b - 1].0);
                            }
                        }
                    }
                }
            }
            i = i + 1;
        }
        proof {
            assert(pairs@.subrange(0, pairs.len() as int) =~= pairs@);
        }
        TokenBias { entries }
    }

    /// The pairs of the table, in the order of their ids.
    pub fn entries(&self) -> (r: &Vec<(TokenId, F32Bits)>)
        ensures
            r@ == self@,
    {
        &self.entries
    }

    /// The bias of `tid`, if the table holds one.
    pub fn get(&self, tid: TokenId) -> (r: Option<F32Bits>)
        ensures
            r == first_bias(self@, tid),
    {
        proof {
            use_type_invariant(self);
        }
        let mut lo: usize = 0;
        let mut hi: usize = self.entries.len();
        while lo < hi
            invariant
                lo <= hi <= self.entries.len(),
                increasing(self.entries@),
                forall|j: int| 0 <= j < lo ==> self.entries@[j].0 < tid,
                forall|j: int| hi <= j < self.entries.len() ==> self.entries@[j].0 > tid,
            decreases hi - lo,
        {
            let mid = lo + (hi - lo) / 2;
            let id = self.entries[mid].0;
            if id == tid {
                proof {
                    lemma_first_bias_unique(self.entries@, mid as int);
                }
                return Some(self.entries[mid].1);
            } else if id < tid {
                proof {
                    assert forall|j: int| 0 <= j < mid + 1 implies self.entries@[j].0 < tid by {
                        if j < mid {
                            assert(self.entries@[j].0 < self.entries@[mid as int].0);
                        }
                    }
                }
                lo = mid + 1;
            } else {
                proof {
                    assert forall|j: int| mid <= j < self.entries.len() implies self.entries@[j].0
                        > tid by {
                        if j > mid {
                            assert(self.entries@[mid as int].0 < self.entries@[j].0);
                        }
                    }
                }
                hi = mid;
            }
        }
        proof {
            lemma_first_bias_absent(self.entries@, tid);
        }
        None
    }
}

impl BiasPolicy for TokenBias {
    open spec fn bias(&self, tid: TokenId) -> Option<F32Bits> {
        first_bias(self@, tid)
    }

    fn get(&self, tid: TokenId) -> (r: Option<F32Bits>) {
        TokenBias::get(self, tid)
    }
}

} // verus!
