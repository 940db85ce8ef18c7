//! A bias that keeps a reply going until its code block is closed and
//! something follows it.
//!
//! The end of the document is held back while the text so far holds no
//! closing fence (three backticks and a line feed), or nothing after the
//! first one.

use vstd::prelude::*;
use vstd::string::StrSliceExecFns;
use vstd::utf8::encode_utf8;
use crate::bias::BiasPolicy;
use crate::ieee::{F32Bits, MINUS_ONE_BITS};
use crate::search::{ascii_bytes, bytes_of, find, first_offset, occurs};
use crate::token::{TokenId, EOD_TOKEN_ID};

verus! {

/// The bytes of the closing fence.
pub open spec fn closing_fence() -> Seq<u8> {
    ascii_bytes("```\n"@)
}

/// The end of the document is held back for this text.
pub open spec fn holds_back(text: Seq<u8>) -> bool {
    !occurs(text, closing_fence()) || first_offset(text, closing_fence()) + 4 >= text.len()
}

/// Decides from the UTF-8 bytes of the text generated so far.
#[derive(Clone, Debug, Default, PartialEq, Eq)]
pub struct CustomTokenBias {
    pub text: Vec<u8>,
}

impl CustomTokenBias {
    /// A policy that starts from the text `text`.
    pub fn new(text: String) -> (r: CustomTokenBias)
        ensures
            r.text@ == encode_utf8(text@),
    {
        CustomTokenBias { text: text.as_str().as_bytes_vec() }
    }

    /// Adds `piece` to the end of the text.
    pub fn append(&mut self, piece: &str)
        ensures
            final(self).text@ == old(self).text@ + encode_utf8(piece@),
    {
        self.text.extend_from_slice(piece.as_bytes());
        proof {
            assert(self.text@ =~= old(self).text@ + encode_utf8(piece@));
        }
    }
}

impl BiasPolicy for CustomTokenBias {
    /// `-1.0` for the end-of-document token while it is held back; nothing
    /// for any other token.
    open spec fn bias(&self, tid: TokenId) -> Option<F32Bits> {
        if tid == EOD_TOKEN_ID && holds_back(self.text@) {
            Some(F32Bits { bits: MINUS_ONE_BITS })
        } else {
            None
        }
    }

    fn get(&self, tid: TokenId) -> (r: Option<F32Bits>) {
        if tid != EOD_TOKEN_ID {
            return None;
        }
        let text = self.text.as_slice();
        proof {
            reveal_strlit("```\n");
        }
        match find(text, bytes_of("```\n")) {
            Some(at) => {
                if text.len() - at <= 4 {
                    Some(F32Bits::minus_one())
                } else {
                    None
                }
            },
            None => Some(F32Bits::minus_one()),
        }
    }
}

} // verus!
