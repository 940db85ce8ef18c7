//! The text of a bias: items of the form `id=bias`.
//!
//! An item is trimmed of white space, split at its first `=`, and the id
//! before it is read as a decimal numeral. The bias after it is handed on as
//! text, for the caller to read as a number.

use vstd::prelude::*;
use vstd::string::StringExecFns;
use crate::text::{is_digit, numeral_value};
use crate::token::TokenId;

verus! {

/// The error of reading an integer, carried through as it is.
#[verifier::external_type_specification]
#[verifier::external_body]
pub struct ExParseIntError(core::num::ParseIntError);

/// The characters with the Unicode property `White_Space`.
pub open spec fn is_space(c: char) -> bool {
    let v = c as u32;
    ||| 0x09 <= v <= 0x0D
    ||| v == 0x20
    ||| v == 0x85
    ||| v == 0xA0
    ||| v == 0x1680
    ||| 0x2000 <= v <= 0x200A
    ||| v == 0x2028
    ||| v == 0x2029
    ||| v == 0x202F
    ||| v == 0x205F
    ||| v == 0x3000
}

/// `s` without the white space at its start.
pub open spec fn without_leading_space(s: Seq<char>) -> Seq<char>
    decreases s.len(),
{
    if s.len() > 0 && is_space(s[0]) {
        without_leading_space(s.drop_first())
    } else {
        s
    }
}

/// `s` without the white space at its end.
pub open spec fn without_trailing_space(s: Seq<char>) -> Seq<char>
    decreases s.len(),
{
    if s.len() > 0 && is_space(s.last()) {
        without_trailing_space(s.drop_last())
    } else {
        s
    }
}

/// `s` without the white space at its start and at its end.
pub open spec fn trimmed(s: Seq<char>) -> Seq<char> {
    without_trailing_space(without_leading_space(s))
}

/// What stands in `s` before the first `c`; all of `s` where there is none.
pub open spec fn before_first(s: Seq<char>, c: char) -> Seq<char>
    decreases s.len(),
{
    if s.len() == 0 || s[0] == c {
        Seq::empty()
    } else {
        seq![s[0]] + before_first(s.drop_first(), c)
    }
}

/// What stands in `s` after the first `c`; nothing where there is none.
pub open spec fn after_first(s: Seq<char>, c: char) -> Seq<char>
    decreases s.len(),
{
    if s.len() == 0 {
        Seq::empty()
    } else if s[0] == c {
        s.drop_first()
    } else {
        after_first(s.drop_first(), c)
    }
}

/// The digits of a numeral: what follows its plus sign, if it has one.
pub open spec fn digits_of(text: Seq<char>) -> Seq<char> {
    if text.len() > 0 && text[0] == '+' {
        text.drop_first()
    } else {
        text
    }
}

/// The token id that `text` writes: a decimal numeral, with or without a
/// plus sign before it, of a number that a token id can hold.
pub open spec fn id_written(text: Seq<char>) -> Option<TokenId> {
    let digits = digits_of(text);
    if digits.len() >= 1 && (forall|i: int| 0 <= i < digits.len() ==> is_digit(#[trigger] digits[i]))
        && numeral_value(digits) <= u32::MAX {
        Some(numeral_value(digits) as TokenId)
    } else {
        None
    }
}

/// `s` without the white space around it.
///
/// Trusted: calls `str::trim`, which removes leading and trailing white
/// space as the Unicode property `White_Space` defines it.
#[verifier::external_body]
pub(crate) fn trim(s: &str) -> (r: &str)
    ensures
        r@ == trimmed(s@),
{
    s.trim()
}

/// The parts of `s` before and after its first `c`.
///
/// Trusted: calls `str::split_once`, which splits at the first occurrence of
/// the delimiter and gives what stands before and after it, or nothing where
/// the delimiter does not occur.
#[verifier::external_body]
pub(crate) fn split_once(s: &str, c: char) -> (r: Option<(&str, &str)>)
    ensures
        r is Some <==> s@.contains(c),
        r matches Some(halves) ==> halves.0@ == before_first(s@, c) && halves.1@ == after_first(
            s@,
            c,
        ),
{
    s.split_once(c)
}

/// The token id that `s` writes.
///
/// Trusted: calls `str::parse` for an unsigned integer of 32 bits, which
/// takes an optional plus sign followed by decimal digits only, and fails on
/// anything else, on no digits and on a number that the type cannot hold.
#[verifier::external_body]
pub(crate) fn parse_id(s: &str) -> (r: Result<TokenId, core::num::ParseIntError>)
    ensures
        match id_written(s@) {
            Some(id) => r is Ok && r->Ok_0 == id,
            None => r is Err,
        },
{
    s.parse()
}

/// The description of an error of reading an integer.
///
/// Trusted: calls `to_string` of `ParseIntError`. Nothing is claimed of the
/// text.
#[verifier::external_body]
pub(crate) fn describe(error: &core::num::ParseIntError) -> (r: String) {
    error.to_string()
}

/// What is said of an item without `=`.
pub open spec fn missing_sign() -> Seq<char> {
    "Missing '=' in bias item"@
}

/// The id of a token and the text of its bias, from an item of the form
/// `id=bias`. White space around the item, the id and the bias is left out.
///
/// Fails with the words of [`missing_sign`] where the item holds no `=`, and
/// with the description of the error where what stands before the first `=`
/// is no token id.
pub fn split_bias_item(item: &str) -> (r: Result<(TokenId, String), String>)
    ensures
        !trimmed(item@).contains('=') ==> r is Err && r->Err_0@ == missing_sign(),
        trimmed(item@).contains('=') ==> match id_written(
            trimmed(before_first(trimmed(item@), '=')),
        ) {
            Some(id) => r is Ok && r->Ok_0.0 == id && r->Ok_0.1@ == trimmed(
                after_first(trimmed(item@), '='),
            ),
            None => r is Err,
        },
{
    match split_once(trim(item), '=') {
        None => Err(String::from_str("Missing '=' in bias item")),
        Some((id_text, bias_text)) => match parse_id(trim(id_text)) {
            Ok(id) => Ok((id, String::from_str(trim(bias_text)))),
            Err(e) => Err(describe(&e)),
        },
    }
}

/// What follows the first `c` of a text is shorter than the text.
pub proof fn lemma_after_first_is_shorter(s: Seq<char>, c: char)
    ensures
        after_first(s, c).len() <= s.len(),
        s.contains(c) ==> after_first(s, c).len() < s.len(),
    decreases s.len(),
{
    if s.len() > 0 && s[0] != c {
        lemma_after_first_is_shorter(s.drop_first(), c);
        if s.contains(c) {
            let at = choose|at: int| 0 <= at < s.len() && s[at] == c;
            assert(s.drop_first()[at - 1] == c);
        }
    }
}

/// The items of a text: what stands between its commas.
pub open spec fn items_of(text: Seq<char>) -> Seq<Seq<char>>
    decreases text.len(),
    via items_of_decreases
{
    if !text.contains(',') {
        seq![text]
    } else {
        seq![before_first(text, ',')] + items_of(after_first(text, ','))
    }
}

#[via_fn]
proof fn items_of_decreases(text: Seq<char>) {
    lemma_after_first_is_shorter(text, ',');
}

/// The id and the text of the bias that an item gives, if it gives them.
pub open spec fn item_pair(item: Seq<char>) -> Option<(TokenId, Seq<char>)> {
    if !trimmed(item).contains('=') {
        None
    } else {
        match id_written(trimmed(before_first(trimmed(item), '='))) {
            Some(id) => Some((id, trimmed(after_first(trimmed(item), '=')))),
            None => None,
        }
    }
}

/// What the items give up to the first that gives nothing.
pub open spec fn pairs_of(items: Seq<Seq<char>>) -> Seq<(TokenId, Seq<char>)>
    decreases items.len(),
{
    if items.len() == 0 {
        Seq::empty()
    } else {
        match item_pair(items[0]) {
            None => Seq::empty(),
            Some(pair) => seq![pair] + pairs_of(items.drop_first()),
        }
    }
}

/// The first item that gives nothing, if there is one.
pub open spec fn first_failing(items: Seq<Seq<char>>) -> Option<Seq<char>>
    decreases items.len(),
{
    if items.len() == 0 {
        None
    } else if item_pair(items[0]) is None {
        Some(items[0])
    } else {
        first_failing(items.drop_first())
    }
}

/// The items of a text of biases: the ids and bias texts of the items that
/// come before the first item in error, and what is wrong with that item.
#[derive(Clone, Debug, PartialEq, Eq)]
pub struct BiasItems {
    pub pairs: Vec<(TokenId, String)>,
    pub error: Option<String>,
}

impl BiasItems {
    /// The pairs, with their texts as character sequences.
    pub open spec fn spec_pairs(self) -> Seq<(TokenId, Seq<char>)> {
        Seq::new(self.pairs.len() as nat, |i: int| (self.pairs[i].0, self.pairs[i].1@))
    }
}

/// Splits a text of biases, written as items `id=bias` with commas between
/// them, into its items, up to the first item in error.
pub fn split_bias_items(text: &str) -> (r: BiasItems)
    ensures
        r.spec_pairs() == pairs_of(items_of(text@)),
        match first_failing(items_of(text@)) {
            None => r.error is None,
            Some(item) => r.error is Some && (!trimmed(item).contains('=') ==> r.error->0@
                == missing_sign()),
        },
{
    let mut pairs: Vec<(TokenId, String)> = Vec::new();
    let mut rest: &str = text;
    loop
        invariant
            pairs_of(items_of(text@)) == (BiasItems { pairs, error: None }).spec_pairs() + pairs_of(
                items_of(rest@),
            ),
            first_failing(items_of(text@)) == first_failing(items_of(rest@)),
        decreases rest@.len(),
    {
        let ghost done = (BiasItems { pairs, error: None }).spec_pairs();
        let ghost items = items_of(rest@);
        let (item, tail) = match split_once(rest, ',') {
            Some((item, tail)) => (item, Some(tail)),
            None => (rest, None),
        };
        proof {
            lemma_after_first_is_shorter(rest@, ',');
            assert(items[0] == item@);
            if tail is Some {
                assert(items.drop_first() =~= items_of(tail->0@));
            } else {
                assert(items.drop_first() =~= Seq::<Seq<char>>::empty());
            }
        }
        match split_bias_item(item) {
            Ok(pair) => {
                pairs.push(pair);
                proof {
                    let now = (BiasItems { pairs, error: None }).spec_pairs();
                    assert(now =~= done + seq![(pair.0, pair.1@)]);
                    assert(done + (seq![(pair.0, pair.1@)] + pairs_of(items.drop_first())) =~= now
                        + pairs_of(items.drop_first()));
                }
                match tail {
                    Some(tail) => {
                        rest = tail;
                    },
                    None => {
                        proof {
                            let now = (BiasItems { pairs, error: None }).spec_pairs();
                            assert(now + Seq::<(TokenId, Seq<char>)>::empty() =~= now);
                            assert(item_pair(items[0]) is Some);
                            assert(first_failing(items.drop_first()) is None);
                            assert(first_failing(items) is None);
                        }
                        return BiasItems { pairs, error: None };
                    },
                }
            },
            Err(e) => {
                proof {
                    assert(done + Seq::<(TokenId, Seq<char>)>::empty() =~= done);
                }
                return BiasItems { pairs, error: Some(e) };
            },
        }
    }
}

} // verus!
