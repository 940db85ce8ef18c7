//! Searching and counting in byte strings.

use vstd::prelude::*;
use vstd::string::is_ascii_spec_bytes;
use vstd::utf8::is_ascii_chars;

verus! {

/// The bytes of a text of ASCII characters: one byte per character.
pub open spec fn ascii_bytes(text: Seq<char>) -> Seq<u8> {
    Seq::new(text.len(), |i: int| text[i] as u8)
}

/// `needle` stands in `hay` at offset `at`.
pub open spec fn occurs_at(hay: Seq<u8>, needle: Seq<u8>, at: int) -> bool {
    0 <= at && at + needle.len() <= hay.len() && hay.subrange(at, at + needle.len()) == needle
}

/// `at` is the first offset at which `needle` stands in `hay`.
pub open spec fn first_occurrence(hay: Seq<u8>, needle: Seq<u8>, at: int) -> bool {
    occurs_at(hay, needle, at) && forall|k: int| 0 <= k < at ==> !occurs_at(hay, needle, k)
}

/// `needle` stands somewhere in `hay`.
pub open spec fn occurs(hay: Seq<u8>, needle: Seq<u8>) -> bool {
    exists|at: int| occurs_at(hay, needle, at)
}

/// The first offset at which `needle` stands in `hay`, where it occurs.
pub open spec fn first_offset(hay: Seq<u8>, needle: Seq<u8>) -> int {
    choose|at: int| first_occurrence(hay, needle, at)
}

/// How often the byte `b` occurs in `s`.
pub open spec fn count_byte(s: Seq<u8>, b: u8) -> nat
    decreases s.len(),
{
    if s.len() == 0 {
        0
    } else {
        count_byte(s.drop_last(), b) + if s.last() == b {
            1nat
        } else {
            0nat
        }
    }
}

/// The bytes of a text of ASCII characters.
pub fn bytes_of(text: &str) -> (r: &[u8])
    requires
        is_ascii_chars(text@),
    ensures
        r@ == ascii_bytes(text@),
{
    let r = text.as_bytes();
    proof {
        is_ascii_spec_bytes(text);
        assert(r@ =~= ascii_bytes(text@));
    }
    r
}

/// True if `needle` stands in `hay` at offset `at`.
fn matches_at(hay: &[u8], needle: &[u8], at: usize) -> (r: bool)
    requires
        at + needle.len() <= hay.len(),
    ensures
        r == occurs_at(hay@, needle@, at as int),
{
    let mut k: usize = 0;
    while k < needle.len()
        invariant
            k <= needle.len(),
            at + needle.len() <= hay.len(),
            forall|j: int| 0 <= j < k ==> hay@[at + j] == needle@[j],
        decreases needle.len() - k,
    {
        if hay[at + k] != needle[k] {
            proof {
                let window = hay@.subrange(at as int, at + needle.len());
                assert(window[k as int] == hay@[at + k]);
            }
            return false;
        }
        k = k + 1;
    }
    proof {
        assert(hay@.subrange(at as int, at + needle.len()) =~= needle@);
    }
    true
}

/// The first offset at which `needle` stands in `hay`.
pub fn find(hay: &[u8], needle: &[u8]) -> (r: Option<usize>)
    ensures
        r is Some <==> occurs(hay@, needle@),
        r is Some ==> r->0 == first_offset(hay@, needle@) && first_occurrence(
            hay@,
            needle@,
            r->0 as int,
        ),
{
    let n = hay.len();
    let m = needle.len();
    if m > n {
        return None;
    }
    if m == 0 {
        proof {
            assert(hay@.subrange(0, 0) =~= needle@);
            assert(first_occurrence(hay@, needle@, 0));
            let chosen = first_offset(hay@, needle@);
            assert(first_occurrence(hay@, needle@, chosen));
        }
        return Some(0);
    }
    let mut at: usize = 0;
    while at <= n - m
        invariant
            1 <= m <= n,
            n == hay.len(),
            m == needle.len(),
            at <= n - m + 1,
            forall|k: int| 0 <= k < at ==> !occurs_at(hay@, needle@, k),
        decreases n - m + 1 - at,
    {
        if matches_at(hay, needle, at) {
            proof {
                assert(first_occurrence(hay@, needle@, at as int));
                let chosen = first_offset(hay@, needle@);
                assert(first_occurrence(hay@, needle@, chosen));
            }
            return Some(at);
        }
        at = at + 1;
    }
    None
}

/// How often the byte `b` occurs in `hay` from offset `from` on.
pub fn count_from(hay: &[u8], from: usize, b: u8) -> (r: usize)
    requires
        from <= hay.len(),
    ensures
        r == count_byte(hay@.subrange(from as int, hay.len() as int), b),
{
    let n = hay.len();
    let mut count: usize = 0;
    let mut i: usize = from;
    proof {
        assert(hay@.subrange(from as int, from as int).len() == 0);
    }
    while i < n
        invariant
            from <= i <= n,
            n == hay.len(),
            count <= i - from,
            count == count_byte(hay@.subrange(from as int, i as int), b),
        decreases n - i,
    {
        proof {
            let next = hay@.subrange(from as int, i + 1);
            assert(next.drop_last() =~= hay@.subrange(from as int, i as int));
            assert(next.last() == hay@[i as int]);
        }
        if hay[i] == b {
            count = count + 1;
        }
        i = i + 1;
    }
    count
}

} // verus!
