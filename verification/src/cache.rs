//! Names of the files in which snapshots of prompts are kept.
//!
//! A prompt's snapshot is kept under the first eight hexadecimal digits of
//! the SHA-256 digest of the prompt, with the extension `.bin`.

use sha2::{Digest, Sha256};
use vstd::prelude::*;
use vstd::string::StringExecFns;

verus! {

/// The SHA-256 digest of `data`.
pub uninterp spec fn sha256(data: Seq<u8>) -> Seq<u8>;

/// Length of a SHA-256 digest in bytes.
pub const DIGEST_LEN: usize = 32;

/// How many bytes of the digest go into a file name.
pub const NAME_BYTES: usize = 4;

/// Computes the SHA-256 digest of `data`.
///
/// Trusted: calls `Sha256::digest` of the crate `sha2`, which hashes the
/// whole of `data` and gives the 32 bytes of the digest.
#[verifier::external_body]
pub(crate) fn sha256_digest(data: &[u8]) -> (r: Vec<u8>)
    ensures
        r@ == sha256(data@),
        r@.len() == DIGEST_LEN,
{
    Sha256::digest(data).to_vec()
}

/// The lower-case hexadecimal digit of `nibble`.
pub open spec fn hex_digit(nibble: int) -> char
    recommends
        0 <= nibble < 16,
{
    if nibble == 0 {
        '0'
    } else if nibble == 1 {
        '1'
    } else if nibble == 2 {
        '2'
    } else if nibble == 3 {
        '3'
    } else if nibble == 4 {
        '4'
    } else if nibble == 5 {
        '5'
    } else if nibble == 6 {
        '6'
    } else if nibble == 7 {
        '7'
    } else if nibble == 8 {
        '8'
    } else if nibble == 9 {
        '9'
    } else if nibble == 10 {
        'a'
    } else if nibble == 11 {
        'b'
    } else if nibble == 12 {
        'c'
    } else if nibble == 13 {
        'd'
    } else if nibble == 14 {
        'e'
    } else {
        'f'
    }
}

/// The bytes of `data` in lower-case hexadecimal, two digits per byte.
pub open spec fn hex(data: Seq<u8>) -> Seq<char>
    decreases data.len(),
{
    if data.len() == 0 {
        Seq::empty()
    } else {
        hex(data.drop_last()).push(hex_digit(data.last() as int / 16)).push(
            hex_digit(data.last() as int % 16),
        )
    }
}

/// The file name for a digest: its first four bytes in hexadecimal, and
/// `.bin`.
pub open spec fn name_of(digest: Seq<u8>) -> Seq<char> {
    hex(digest.subrange(0, NAME_BYTES as int)) + ".bin"@
}

fn hex_str(nibble: u8) -> (r: &'static str)
    requires
        nibble < 16,
    ensures
        r@ == seq![hex_digit(nibble as int)],
{
    proof {
        reveal_strlit("0");
        reveal_strlit("1");
        reveal_strlit("2");
        reveal_strlit("3");
        reveal_strlit("4");
        reveal_strlit("5");
        reveal_strlit("6");
        reveal_strlit("7");
        reveal_strlit("8");
        reveal_strlit("9");
        reveal_strlit("a");
        reveal_strlit("b");
        reveal_strlit("c");
        reveal_strlit("d");
        reveal_strlit("e");
        reveal_strlit("f");
    }
    let r = if nibble == 0 {
        "0"
    } else if nibble == 1 {
        "1"
    } else if nibble == 2 {
        "2"
    } else if nibble == 3 {
        "3"
    } else if nibble == 4 {
        "4"
    } else if nibble == 5 {
        "5"
    } else if nibble == 6 {
        "6"
    } else if nibble == 7 {
        "7"
    } else if nibble == 8 {
        "8"
    } else if nibble == 9 {
        "9"
    } else if nibble == 10 {
        "a"
    } else if nibble == 11 {
        "b"
    } else if nibble == 12 {
        "c"
    } else if nibble == 13 {
        "d"
    } else if nibble == 14 {
        "e"
    } else {
        "f"
    };
    assert(r@ =~= seq![hex_digit(nibble as int)]);
    r
}

/// The name of the snapshot file for a prompt with digest `digest`.
pub fn snapshot_name_for(digest: &[u8]) -> (r: String)
    requires
        digest.len() >= NAME_BYTES,
    ensures
        r@ == name_of(digest@),
{
    let mut name = String::new();
    let mut i: usize = 0;
    let ghost head = digest@.subrange(0, NAME_BYTES as int);
    proof {
        assert(head.subrange(0, 0) =~= Seq::<u8>::empty());
    }
    while i < NAME_BYTES
        invariant
            i <= NAME_BYTES,
            digest.len() >= NAME_BYTES,
            head == digest@.subrange(0, NAME_BYTES as int),
            name@ == hex(head.subrange(0, i as int)),
        decreases NAME_BYTES - i,
    {
        let byte = digest[i];
        proof {
            let next = head.subrange(0, i + 1);
            assert(next.drop_last() =~= head.subrange(0, i as int));
            assert(next.last() == byte);
        }
        name.append(hex_str(byte / 16));
        name.append(hex_str(byte % 16));
        proof {
            assert(name@ =~= hex(head.subrange(0, i + 1)));
        }
        i = i + 1;
    }
    proof {
        assert(head.subrange(0, NAME_BYTES as int) =~= head);
    }
    name.append(".bin");
    name
}

/// The name of the snapshot file for the prompt `prompt`.
pub fn snapshot_name(prompt: &str) -> (r: String)
    ensures
        r@ == name_of(sha256(vstd::utf8::encode_utf8(prompt@))),
{
    let digest = sha256_digest(prompt.as_bytes());
    snapshot_name_for(digest.as_slice())
}

} // verus!
