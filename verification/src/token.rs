//! Token ids and the tokens handed to the caller.

use vstd::prelude::*;

verus! {

/// Index of a token in the vocabulary.
pub type TokenId = u32;

/// The end-of-document token: sampling it ends the text.
pub const EOD_TOKEN_ID: TokenId = 1;

/// What generation hands to its sink: a piece of text, or the end of the text.
#[derive(Clone, Debug, PartialEq, Eq, PartialOrd, Ord)]
pub enum OutputToken {
    Token(String),
    EndOfText,
}

impl OutputToken {
    /// The text of the token; empty for the end of the text.
    pub open spec fn text(self) -> Seq<char> {
        match self {
            OutputToken::Token(t) => t@,
            OutputToken::EndOfText => Seq::empty(),
        }
    }

    /// The token for a sampled id whose decoded text is `decoded`: the end of
    /// the text for the end-of-document id, the text otherwise.
    pub fn sampled(id: TokenId, decoded: String) -> (r: OutputToken)
        ensures
            id == EOD_TOKEN_ID ==> r is EndOfText,
            id != EOD_TOKEN_ID ==> r == OutputToken::Token(decoded),
    {
        if id == EOD_TOKEN_ID {
            OutputToken::EndOfText
        } else {
            OutputToken::Token(decoded)
        }
    }

    /// The text of the token, as it is shown.
    pub fn to_text(&self) -> (r: String)
        ensures
            r@ == self.text(),
    {
        match self {
            OutputToken::Token(t) => t.clone(),
            OutputToken::EndOfText => String::new(),
        }
    }
}

} // verus!
