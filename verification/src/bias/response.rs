//! A bias that keeps a reply going until it has some length.
//!
//! The end of the document is held back while the text so far ends in a line
//! feed, or holds fewer than four line feeds from the response marker on
//! (from its start, where the marker does not occur).

use vstd::prelude::*;
use vstd::string::StrSliceExecFns;
use vstd::utf8::encode_utf8;
use crate::bias::BiasPolicy;
use crate::ieee::{F32Bits, MINUS_ONE_BITS};
use crate::search::{
    ascii_bytes,
    bytes_of,
    count_byte,
    count_from,
    find,
    first_offset,
    occurs,
};
use crate::token::{TokenId, EOD_TOKEN_ID};

verus! {

/// The line feed.
pub const LINE_FEED: u8 = 0x0A;

/// Line feeds that a reply must hold before it may end.
pub const REPLY_LINES: usize = 4;

/// The bytes of the marker after which the reply starts.
pub open spec fn response_marker() -> Seq<u8> {
    ascii_bytes("### Response:"@)
}

/// Offset at which the reply is taken to start: that of the first marker, or
/// the start of the text.
pub open spec fn reply_start(text: Seq<u8>) -> int {
    if occurs(text, response_marker()) {
        first_offset(text, response_marker())
    } else {
        0
    }
}

/// The end of the document is held back for this text.
pub open spec fn holds_back(text: Seq<u8>) -> bool {
    ||| (text.len() > 0 && text.last() == LINE_FEED)
    ||| count_byte(text.subrange(reply_start(text), text.len() as int), LINE_FEED) < REPLY_LINES
}

/// Decides from the UTF-8 bytes of the text generated so far.
#[derive(Clone, Debug, Default, PartialEq, Eq)]
pub struct CustomTokenBias {
    pub text: Vec<u8>,
}

impl CustomTokenBias {
    /// A policy that starts from the text `text`.
    pub fn new(text: String) -> (r: CustomTokenBias)
        ensures
            r.text@ == encode_utf8(text@),
    {
        CustomTokenBias { text: text.as_str().as_bytes_vec() }
    }

    /// Adds `piece` to the end of the text.
    pub fn append(&mut self, piece: &str)
        ensures
            final(self).text@ == old(self).text@ + encode_utf8(piece@),
    {
        self.text.extend_from_slice(piece.as_bytes());
        proof {
            assert(self.text@ =~= old(self).text@ + encode_utf8(piece@));
        }
    }
}

impl BiasPolicy for CustomTokenBias {
    /// `-1.0` for the end-of-document token while it is held back; nothing
    /// for any other token.
    open spec fn bias(&self, tid: TokenId) -> Option<F32Bits> {
        if tid == EOD_TOKEN_ID && holds_back(self.text@) {
            Some(F32Bits { bits: MINUS_ONE_BITS })
        } else {
            None
        }
    }

    fn get(&self, tid: TokenId) -> (r: Option<F32Bits>) {
        if tid != EOD_TOKEN_ID {
            return None;
        }
        let text = self.text.as_slice();
        let n = text.len();
        if n > 0 && text[n - 1] == LINE_FEED {
            return Some(F32Bits::minus_one());
        }
        proof {
            reveal_strlit("### Response:");
        }
        let start = match find(text, bytes_of("### Response:")) {
            Some(at) => at,
            None => 0,
        };
        if count_from(text, start, LINE_FEED) < REPLY_LINES {
            Some(F32Bits::minus_one())
        } else {
            None
        }
    }
}

} // verus!
