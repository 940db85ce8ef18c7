//! The texts that prompts are made of.

use vstd::prelude::*;
use vstd::string::StringExecFns;
use vstd::string::StringSliceAdditionalSpecFns;
use vstd::utf8::{
    is_char_boundary_iff_not_is_continuation_byte,
    is_char_boundary_start_end_of_seq,
    is_continuation_byte,
    encode_utf8_valid_utf8,
};

verus! {

/// What a served completion is prefixed with. The snapshot of this text is
/// what every request resumes from.
pub const PROMPT_PREFIX: &'static str =
    "### Instruction:\nConvert to bash command, provide detailed explanation in a second paragraph\n\n### Input:\n";

/// What follows the user's input in the prompt of a served completion.
pub open spec fn response_suffix() -> Seq<char> {
    "\n\n### Response:\n```bash\n"@
}

/// The prompt for the input of a served completion: the input, then the
/// response marker and the opening of a code block.
pub fn generate_prompt(input: &str) -> (r: String)
    ensures
        r@ == input@ + response_suffix(),
{
    let mut prompt = String::from_str(input);
    prompt.append("\n\n### Response:\n```bash\n");
    prompt
}

/// The prompt for a line typed at the interactive prompt: the line between
/// the markers of the user's and the assistant's turn.
pub fn chat_prompt(line: &str) -> (r: String)
    ensures
        r@ == "<|USER|>"@ + line@ + "<|ASSISTANT|>"@,
{
    let mut prompt = String::from_str("<|USER|>");
    prompt.append(line);
    prompt.append("<|ASSISTANT|>");
    prompt
}

/// How many bytes of a prompt read from a file are kept: all but one line
/// feed at its end, and one carriage return before that.
pub open spec fn kept_len(bytes: Seq<u8>) -> int {
    let n = bytes.len() as int;
    let m = if n > 0 && bytes[n - 1] == 0x0A {
        n - 1
    } else {
        n
    };
    if m > 0 && bytes[m - 1] == 0x0D {
        m - 1
    } else {
        m
    }
}

/// A prompt read from a file, without the line end that closes the file.
pub fn trim_prompt_file(prompt: &str) -> (r: &str)
    ensures
        r.spec_bytes() == prompt.spec_bytes().subrange(0, kept_len(prompt.spec_bytes())),
{
    let bytes = prompt.as_bytes();
    let n = bytes.len();
    let m = if n > 0 && bytes[n - 1] == 0x0A {
        n - 1
    } else {
        n
    };
    let keep = if m > 0 && bytes[m - 1] == 0x0D {
        m - 1
    } else {
        m
    };
    proof {
        let b = prompt.spec_bytes();
        encode_utf8_valid_utf8(prompt@);
        is_char_boundary_start_end_of_seq(b);
        if keep < n {
            assert(!is_continuation_byte(b[keep as int])) by {
                let x = b[keep as int];
                assert(x == 0x0A || x == 0x0D);
                assert(x & 0xC0 != 0x80) by (bit_vector)
                    requires
                        x == 0x0A || x == 0x0D,
                ;
            }
            is_char_boundary_iff_not_is_continuation_byte(b, keep as int);
        }
    }
    let (head, _) = prompt.split_at(keep);
    head
}

} // verus!
