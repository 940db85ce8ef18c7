//! Finding the part files of a model among the files of its directory.
//!
//! The parts are the files whose names start with the name of the main file,
//! the main file among them, in the lexicographic order of the bytes of
//! their names.

use vstd::prelude::*;
use vstd::utf8::encode_utf8;

verus! {

/// `prefix` is a prefix of `s`.
pub open spec fn is_prefix(prefix: Seq<u8>, s: Seq<u8>) -> bool {
    prefix.len() <= s.len() && s.subrange(0, prefix.len() as int) == prefix
}

/// `a` comes before `b`, or is equal to it, in lexicographic order.
pub open spec fn lex_le(a: Seq<u8>, b: Seq<u8>) -> bool
    decreases a.len(),
{
    if a.len() == 0 {
        true
    } else if b.len() == 0 {
        false
    } else if a[0] != b[0] {
        a[0] < b[0]
    } else {
        lex_le(a.drop_first(), b.drop_first())
    }
}

/// The bytes of the name with index `i`.
pub open spec fn name_bytes(names: Seq<String>, i: int) -> Seq<u8> {
    encode_utf8(names[i]@)
}

/// `parts` are the indices of the names that start with `main`, each once,
/// ordered by name; of two equal names the one with the smaller index comes
/// first.
pub open spec fn parts_of(main: Seq<u8>, names: Seq<String>, parts: Seq<usize>) -> bool {
    &&& forall|k: int|
        0 <= k < parts.len() ==> (#[trigger] parts[k]) < names.len() && is_prefix(
            main,
            name_bytes(names, parts[k] as int),
        )
    &&& forall|i: int|
        0 <= i < names.len() && is_prefix(main, #[trigger] name_bytes(names, i)) ==> exists|k: int|
            0 <= k < parts.len() && parts[k] == i
    &&& forall|k: int, l: int|
        #![trigger parts[k], parts[l]]
        0 <= k < l < parts.len() ==> {
            &&& parts[k] != parts[l]
            &&& lex_le(name_bytes(names, parts[k] as int), name_bytes(names, parts[l] as int))
            &&& name_bytes(names, parts[k] as int) == name_bytes(names, parts[l] as int)
                ==> parts[k] < parts[l]
        }
}

pub proof fn lemma_lex_le_reflexive(a: Seq<u8>)
    ensures
        lex_le(a, a),
    decreases a.len(),
{
    if a.len() > 0 {
        lemma_lex_le_reflexive(a.drop_first());
    }
}

pub proof fn lemma_lex_le_total(a: Seq<u8>, b: Seq<u8>)
    ensures
        lex_le(a, b) || lex_le(b, a),
    decreases a.len(),
{
    if a.len() > 0 && b.len() > 0 && a[0] == b[0] {
        lemma_lex_le_total(a.drop_first(), b.drop_first());
    }
}

pub proof fn lemma_lex_le_transitive(a: Seq<u8>, b: Seq<u8>, c: Seq<u8>)
    requires
        lex_le(a, b),
        lex_le(b, c),
    ensures
        lex_le(a, c),
    decreases a.len(),
{
    if a.len() > 0 && b.len() > 0 && c.len() > 0 && a[0] == b[0] && b[0] == c[0] {
        lemma_lex_le_transitive(a.drop_first(), b.drop_first(), c.drop_first());
    }
}

/// True if `s` starts with `prefix`.
pub fn starts_with(s: &[u8], prefix: &[u8]) -> (r: bool)
    ensures
        r == is_prefix(prefix@, s@),
{
    let n = prefix.len();
    if n > s.len() {
        return false;
    }
    let mut i: usize = 0;
    while i < n
        invariant
            i <= n <= s.len(),
            n == prefix.len(),
            forall|j: int| 0 <= j < i ==> s@[j] == prefix@[j],
        decreases n - i,
    {
        if s[i] != prefix[i] {
            proof {
                assert(s@.subrange(0, n as int)[i as int] == s@[i as int]);
            }
            return false;
        }
        i = i + 1;
    }
    proof {
        assert(s@.subrange(0, n as int) =~= prefix@);
    }
    true
}

/// True if `a` comes before `b`, or is equal to it, in lexicographic order.
pub fn precedes(a: &[u8], b: &[u8]) -> (r: bool)
    ensures
        r == lex_le(a@, b@),
{
    let n = a.len();
    let m = b.len();
    let mut i: usize = 0;
    proof {
        assert(a@.subrange(0, n as int) =~= a@);
        assert(b@.subrange(0, m as int) =~= b@);
    }
    while i < n && i < m
        invariant
            i <= n,
            i <= m,
            n == a.len(),
            m == b.len(),
            lex_le(a@, b@) == lex_le(a@.subrange(i as int, n as int), b@.subrange(i as int, m as int)),
        decreases n - i,
    {
        let ghost ra = a@.subrange(i as int, n as int);
        let ghost rb = b@.subrange(i as int, m as int);
        proof {
            assert(ra[0] == a@[i as int]);
            assert(rb[0] == b@[i as int]);
            assert(ra.drop_first() =~= a@.subrange(i + 1, n as int));
            assert(rb.drop_first() =~= b@.subrange(i + 1, m as int));
        }
        if a[i] != b[i] {
            return a[i] < b[i];
        }
        i = i + 1;
    }
    proof {
        assert(a@.subrange(i as int, n as int).len() == n - i);
        assert(b@.subrange(i as int, m as int).len() == m - i);
    }
    i == n
}

/// Picks the parts of the model whose main file is named `main_name` among
/// the files named `names`. Returns their indices in `names`, in the order
/// in which the parts are read.
pub fn select_parts(main_name: &str, names: &Vec<String>) -> (r: Vec<usize>)
    ensures
        parts_of(encode_utf8(main_name@), names@, r@),
{
    let main = main_name.as_bytes();
    let mut parts: Vec<usize> = Vec::new();
    let mut i: usize = 0;
    while i < names.len()
        invariant
            i <= names.len(),
            main@ == encode_utf8(main_name@),
            parts_of(main@, names@.subrange(0, i as int), parts@),
        decreases names.len() - i,
    {
        let ghost seen = names@.subrange(0, i as int);
        let ghost next = names@.subrange(0, i + 1);
        let ghost before = parts@;
        let name = names[i].as_str().as_bytes();
        proof {
            assert(name@ == name_bytes(next, i as int));
            assert forall|j: int| 0 <= j < i implies name_bytes(seen, j) == name_bytes(next, j) by {
                assert(seen[j] == next[j]);
            }
        }
        if starts_with(name, main) {
            let mut at: usize = 0;
            while at < parts.len() && precedes(names[parts[at]].as_str().as_bytes(), name)
                invariant
                    at <= parts.len(),
                    i < names.len(),
                    parts@ == before,
                    next == names@.subrange(0, i + 1),
                    name@ == name_bytes(next, i as int),
                    forall|k: int| 0 <= k < parts.len() ==> (#[trigger] parts@[k]) < i,
                    forall|k: int|
                        0 <= k < at ==> lex_le(name_bytes(next, (#[trigger] parts@[k]) as int), name@),
                decreases parts.len() - at,
            {
                proof {
                    assert(names@[parts@[at as int] as int] == next[parts@[at as int] as int]);
                }
                at = at + 1;
            }
            proof {
                if at < parts.len() {
                    assert(names@[parts@[at as int] as int] == next[parts@[at as int] as int]);
                }
            }
            parts.insert(at, i);
            proof {
                let after = parts@;
                assert forall|k: int| 0 <= k < after.len() implies (#[trigger] after[k]) < next.len()
                    && is_prefix(main@, name_bytes(next, after[k] as int)) by {
                    if k < at {
                        assert(after[k] == before[k]);
                    } else if k > at {
                        assert(after[k] == before[k - 1]);
                    }
                }
                assert forall|j: int|
                    0 <= j < next.len() && is_prefix(main@, #[trigger] name_bytes(next, j)) implies exists|
                    k: int,
                | 0 <= k < after.len() && after[k] == j by {
                    if j == i {
                        assert(after[at as int] == j);
                    } else {
                        assert(is_prefix(main@, name_bytes(seen, j)));
                        let k0 = choose|k: int| 0 <= k < before.len() && before[k] == j;
                        if k0 < at {
                            assert(after[k0] == j);
                        } else {
                            assert(after[k0 + 1] == j);
                        }
                    }
                }
                assert forall|k: int, l: int|
                    #![trigger after[k], after[l]]
                    0 <= k < l < after.len() implies {
                    &&& after[k] != after[l]
                    &&& lex_le(name_bytes(next, after[k] as int), name_bytes(next, after[l] as int))
                    &&& name_bytes(next, after[k] as int) == name_bytes(next, after[l] as int)
                        ==> after[k] < after[l]
                } by {
                    let old_k = if k < at {
                        k
                    } else {
                        k - 1
                    };
                    let old_l = if l < at {
                        l
                    } else {
                        l - 1
                    };
                    if k != at {
                        assert(after[k] == before[old_k]);
                        assert(before[old_k] < i);
                    }
                    if l != at {
                        assert(after[l] == before[old_l]);
                        assert(before[old_l] < i);
                    }
                    if l == at {
                        assert(lex_le(name_bytes(next, before[old_k] as int), name@));
                    } else if k == at {
                        let first = name_bytes(next, before[at as int] as int);
                        assert(!lex_le(first, name@));
                        lemma_lex_le_total(first, name@);
                        if old_l > at {
                            assert(lex_le(
                                name_bytes(seen, before[at as int] as int),
                                name_bytes(seen, before[old_l] as int),
                            ));
                        }
                        let other = name_bytes(next, before[old_l] as int);
                        if old_l > at {
                            lemma_lex_le_transitive(name@, first, other);
                        }
                        if name@ == other {
                            lemma_lex_le_reflexive(name@);
                            if old_l > at {
                                lemma_lex_le_transitive(first, other, name@);
                            }
                        }
                    } else {
                        assert(lex_le(
                            name_bytes(seen, before[old_k] as int),
                            name_bytes(seen, before[old_l] as int),
                        ));
                    }
                }
            }
        } else {
            proof {
                assert forall|j: int|
                    0 <= j < next.len() && is_prefix(main@, #[trigger] name_bytes(next, j)) implies exists|
                    k: int,
                | 0 <= k < before.len() && before[k] == j by {
                    assert(j != i);
                    assert(is_prefix(main@, name_bytes(seen, j)));
                }
                assert forall|k: int, l: int|
                    #![trigger before[k], before[l]]
                    0 <= k < l < before.len() implies {
                    &&& before[k] != before[l]
                    &&& lex_le(name_bytes(next, before[k] as int), name_bytes(next, before[l] as int))
                    &&& name_bytes(next, before[k] as int) == name_bytes(next, before[l] as int)
                        ==> before[k] < before[l]
                } by {
                    assert(lex_le(
                        name_bytes(seen, before[k] as int),
                        name_bytes(seen, before[l] as int),
                    ));
                }
            }
        }
        i = i + 1;
    }
    proof {
        assert(names@.subrange(0, names.len() as int) =~= names@);
    }
    parts
}

} // verus!
