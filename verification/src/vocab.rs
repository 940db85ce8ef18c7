//! The vocabulary section of a model file.
//!
//! Each entry is a signed 32-bit length, that many bytes of UTF-8, and the
//! four bytes of a single-precision score. Words mark a space with the
//! character U+2581, which is rewritten to an ASCII space. An entry whose
//! bytes are not UTF-8 becomes the word `<unk>` with score zero and is
//! reported as a bad token.

use vstd::prelude::*;
use vstd::slice::{slice_subrange, slice_to_vec};
use vstd::string::StringExecFns;
use vstd::utf8::{decode_utf8, valid_utf8};
use crate::bytes::{has_bytes, le_i32, le_u32, read_i32, read_u32};
use crate::error::LoadError;
use crate::ieee::F32Bits;
use crate::text::{replace_char, replace_each, string_from_utf8};

verus! {

/// The character that stands for a space in stored words.
pub const SPACE_MARKER: char = '\u{2581}';

/// One token of the vocabulary: its text and its score.
#[derive(Clone, Debug, PartialEq, Eq)]
pub struct VocabEntry {
    pub word: String,
    pub score: F32Bits,
}

/// The vocabulary in token-id order, and the ids of the entries that were
/// not UTF-8, in increasing order.
#[derive(Clone, Debug, PartialEq, Eq)]
pub struct Vocabulary {
    pub entries: Vec<VocabEntry>,
    pub bad_tokens: Vec<usize>,
}

/// What one entry of the file holds.
pub struct EntryModel {
    pub word: Seq<char>,
    pub score: u32,
    pub bad: bool,
    /// Offset of the byte after the entry.
    pub next: int,
}

/// What a run of entries holds.
pub struct VocabModel {
    pub words: Seq<Seq<char>>,
    pub scores: Seq<u32>,
    pub bad: Seq<int>,
    /// Offset of the byte after the last entry.
    pub next: int,
}

/// The entry that starts at `pos`, or the error that reading it gives.
pub open spec fn entry_at(bytes: Seq<u8>, pos: int) -> Result<EntryModel, LoadError> {
    if !has_bytes(bytes, pos, 4) {
        Err(LoadError::ReadExactFailed { bytes: 4 })
    } else {
        let len = le_i32(bytes, pos);
        if len < 0 {
            Err(LoadError::InvalidIntegerConversion)
        } else if !has_bytes(bytes, pos + 4, len) {
            Err(LoadError::ReadExactFailed { bytes: len as usize })
        } else if !has_bytes(bytes, pos + 4 + len, 4) {
            Err(LoadError::ReadExactFailed { bytes: 4 })
        } else {
            let raw = bytes.subrange(pos + 4, pos + 4 + len);
            if valid_utf8(raw) {
                Ok(
                    EntryModel {
                        word: replace_each(decode_utf8(raw), SPACE_MARKER, " "@),
                        score: le_u32(bytes, pos + 4 + len) as u32,
                        bad: false,
                        next: pos + 8 + len,
                    },
                )
            } else {
                Ok(EntryModel { word: "<unk>"@, score: 0, bad: true, next: pos + 8 + len })
            }
        }
    }
}

/// The first `k` entries from `start` on, or the first error among them.
pub open spec fn vocab_prefix(bytes: Seq<u8>, start: int, k: nat) -> Result<VocabModel, LoadError>
    decreases k,
{
    if k == 0 {
        Ok(VocabModel { words: Seq::empty(), scores: Seq::empty(), bad: Seq::empty(), next: start })
    } else {
        match vocab_prefix(bytes, start, (k - 1) as nat) {
            Err(e) => Err(e),
            Ok(m) => match entry_at(bytes, m.next) {
                Err(e) => Err(e),
                Ok(entry) => Ok(
                    VocabModel {
                        words: m.words.push(entry.word),
                        scores: m.scores.push(entry.score),
                        bad: if entry.bad {
                            m.bad.push(k - 1)
                        } else {
                            m.bad
                        },
                        next: entry.next,
                    },
                ),
            },
        }
    }
}

/// An error among the first `i` entries is the error of every longer run.
pub proof fn lemma_vocab_error_sticks(bytes: Seq<u8>, start: int, i: nat, n: nat)
    requires
        i <= n,
        vocab_prefix(bytes, start, i) is Err,
    ensures
        vocab_prefix(bytes, start, n) == vocab_prefix(bytes, start, i),
    decreases n,
{
    if i < n {
        lemma_vocab_error_sticks(bytes, start, i, (n - 1) as nat);
    }
}

impl Vocabulary {
    pub open spec fn words(self) -> Seq<Seq<char>> {
        Seq::new(self.entries.len() as nat, |i: int| self.entries[i].word@)
    }

    pub open spec fn scores(self) -> Seq<u32> {
        Seq::new(self.entries.len() as nat, |i: int| self.entries[i].score.bits)
    }

    pub open spec fn bad(self) -> Seq<int> {
        Seq::new(self.bad_tokens.len() as nat, |i: int| self.bad_tokens[i] as int)
    }

    /// True if this vocabulary holds what `m` describes.
    pub open spec fn holds(self, m: VocabModel) -> bool {
        &&& self.words() == m.words
        &&& self.scores() == m.scores
        &&& self.bad() == m.bad
    }
}

/// Reads the entry at `pos`: the token, whether it was a bad token, and the
/// offset after it.
pub fn read_entry(bytes: &[u8], pos: usize) -> (r: Result<(VocabEntry, bool, usize), LoadError>)
    ensures
        match entry_at(bytes@, pos as int) {
            Ok(m) => r matches Ok((entry, bad, next)) && entry.word@ == m.word && entry.score.bits
                == m.score && bad == m.bad && next == m.next,
            Err(e) => r == Err::<(VocabEntry, bool, usize), LoadError>(e),
        },
{
    let len = match read_i32(bytes, pos) {
        Ok(len) => len,
        Err(e) => {
            return Err(e);
        },
    };
    if len < 0 {
        return Err(LoadError::InvalidIntegerConversion);
    }
    let len = len as usize;
    let total = bytes.len();
    let start = pos + 4;
    if len > total - start {
        return Err(LoadError::ReadExactFailed { bytes: len });
    }
    let end = start + len;
    let bits = match read_u32(bytes, end) {
        Ok(bits) => bits,
        Err(e) => {
            return Err(e);
        },
    };
    let raw = slice_to_vec(slice_subrange(bytes, start, end));
    match string_from_utf8(raw) {
        Some(word) => {
            let word = replace_char(word.as_str(), SPACE_MARKER, " ");
            Ok((VocabEntry { word, score: F32Bits::from_bits(bits) }, false, end + 4))
        },
        None => {
            let word = String::from_str("<unk>");
            Ok((VocabEntry { word, score: F32Bits::zero() }, true, end + 4))
        },
    }
}

/// The entries that can be read of the first `k` from `start` on: all of
/// them, or those before the first error.
pub open spec fn vocab_run(bytes: Seq<u8>, start: int, k: nat) -> VocabModel
    decreases k,
{
    if k == 0 {
        VocabModel { words: Seq::empty(), scores: Seq::empty(), bad: Seq::empty(), next: start }
    } else {
        match vocab_prefix(bytes, start, k) {
            Ok(m) => m,
            Err(_) => vocab_run(bytes, start, (k - 1) as nat),
        }
    }
}

/// After the first error nothing more is read.
pub proof fn lemma_vocab_run_stops(bytes: Seq<u8>, start: int, i: nat, n: nat)
    requires
        i < n,
        vocab_prefix(bytes, start, i) is Ok,
        vocab_prefix(bytes, start, i + 1) is Err,
    ensures
        vocab_run(bytes, start, n) == vocab_prefix(bytes, start, i)->Ok_0,
    decreases n,
{
    lemma_vocab_error_sticks(bytes, start, i + 1, n);
    if n > i + 1 {
        lemma_vocab_run_stops(bytes, start, i, (n - 1) as nat);
    } else {
        assert(vocab_run(bytes, start, n) == vocab_run(bytes, start, i));
        assert(vocab_run(bytes, start, i) == vocab_prefix(bytes, start, i)->Ok_0);
    }
}

/// What reading a vocabulary gives: the entries read, and the offset after
/// the last of them or the error that ended the reading.
#[derive(Debug, PartialEq, Eq)]
pub struct VocabularyRead {
    pub vocabulary: Vocabulary,
    pub end: Result<usize, LoadError>,
}

/// Reads `count` entries from `start` on. Gives the offset after the last
/// entry, or the first error met, and in either case the entries read up to
/// there.
pub fn parse_vocabulary(bytes: &[u8], start: usize, count: usize) -> (r: VocabularyRead)
    ensures
        r.vocabulary.holds(vocab_run(bytes@, start as int, count as nat)),
        match vocab_prefix(bytes@, start as int, count as nat) {
            Ok(m) => r.end == Ok::<usize, LoadError>(m.next as usize) && r.vocabulary.holds(m),
            Err(e) => r.end == Err::<usize, LoadError>(e),
        },
{
    let mut entries: Vec<VocabEntry> = Vec::new();
    let mut bad_tokens: Vec<usize> = Vec::new();
    let mut pos: usize = start;
    let mut i: usize = 0;
    proof {
        let v = Vocabulary { entries, bad_tokens };
        assert(v.words() =~= Seq::empty());
        assert(v.scores() =~= Seq::empty());
        assert(v.bad() =~= Seq::empty());
    }
    while i < count
        invariant
            i <= count,
            vocab_prefix(bytes@, start as int, i as nat) matches Ok(m) && (Vocabulary {
                entries,
                bad_tokens,
            }).holds(m) && pos == m.next,
        decreases count - i,
    {
        match read_entry(bytes, pos) {
            Ok((entry, bad, next)) => {
                entries.push(entry);
                if bad {
                    bad_tokens.push(i);
                }
                pos = next;
            },
            Err(e) => {
                proof {
                    lemma_vocab_error_sticks(bytes@, start as int, (i + 1) as nat, count as nat);
                    lemma_vocab_run_stops(bytes@, start as int, i as nat, count as nat);
                }
                return VocabularyRead { vocabulary: Vocabulary { entries, bad_tokens }, end: Err(e) };
            },
        }
        i = i + 1;
        proof {
            let after = vocab_prefix(bytes@, start as int, i as nat)->Ok_0;
            let v = Vocabulary { entries, bad_tokens };
            assert(v.words() =~= after.words);
            assert(v.scores() =~= after.scores);
            assert(v.bad() =~= after.bad);
        }
    }
    VocabularyRead { vocabulary: Vocabulary { entries, bad_tokens }, end: Ok(pos) }
}

} // verus!
