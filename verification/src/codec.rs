//! Snapshots as bytes.
//!
//! A snapshot is written as one record of the `bincode` format with integers
//! of fixed width in little-endian order: the number of positions (eight
//! bytes), the size of the ring (eight bytes), the element types of the key
//! and the value memory (four bytes each, 0 for half and 1 for single
//! precision), and then, each behind its length in eight bytes, the key
//! memory, the value memory, the ring of tokens at four bytes each, and the
//! bit patterns of the logits at four bytes each.

use std::collections::VecDeque;
use vstd::prelude::*;
use vstd::string::StringExecFns;
use crate::element::ModelKVMemoryType;
use crate::error::SnapshotError;
use crate::ieee::F32Bits;
use crate::session::InferenceSessionParameters;
use crate::snapshot::{InferenceSnapshot, InferenceSnapshotRef, SnapshotView};
use crate::token::TokenId;

verus! {

/// The error of the crate `bincode`, carried through as it is.
#[verifier::external_type_specification]
#[verifier::external_body]
pub struct ExErrorKind(bincode::ErrorKind);

/// The fields of a snapshot record, as they stand in the bytes.
#[derive(Debug, PartialEq, Eq)]
pub struct SnapshotFields {
    pub npast: u64,
    pub last_n_size: u64,
    pub memory_k_type: u32,
    pub memory_v_type: u32,
    pub memory_k: Vec<u8>,
    pub memory_v: Vec<u8>,
    pub last_n_tokens: VecDeque<TokenId>,
    pub logits: Vec<u32>,
}

/// [`SnapshotFields`] with its memories, ring and logits as sequences.
pub struct FieldsView {
    pub npast: u64,
    pub last_n_size: u64,
    pub memory_k_type: u32,
    pub memory_v_type: u32,
    pub memory_k: Seq<u8>,
    pub memory_v: Seq<u8>,
    pub last_n_tokens: Seq<TokenId>,
    pub logits: Seq<u32>,
}

impl View for SnapshotFields {
    type V = FieldsView;

    open spec fn view(&self) -> FieldsView {
        FieldsView {
            npast: self.npast,
            last_n_size: self.last_n_size,
            memory_k_type: self.memory_k_type,
            memory_v_type: self.memory_v_type,
            memory_k: self.memory_k@,
            memory_v: self.memory_v@,
            last_n_tokens: self.last_n_tokens@,
            logits: self.logits@,
        }
    }
}

/// Two to the power of eight times `width`: the number of values that
/// `width` bytes can write.
pub open spec fn range_of(width: nat) -> int
    decreases width,
{
    if width == 0 {
        1
    } else {
        256 * range_of((width - 1) as nat)
    }
}

/// The `width` bytes that write `value`, lowest byte first.
pub open spec fn le_bytes(value: int, width: nat) -> Seq<u8>
    decreases width,
{
    if width == 0 {
        Seq::empty()
    } else {
        seq![(value % 256) as u8] + le_bytes(value / 256, (width - 1) as nat)
    }
}

/// The value that the first `width` bytes of `bytes` write, lowest byte
/// first.
pub open spec fn le_value(bytes: Seq<u8>, width: nat) -> int
    decreases width,
{
    if width == 0 {
        0
    } else {
        bytes[0] as int + 256 * le_value(bytes.skip(1), (width - 1) as nat)
    }
}

/// The bytes that write `values`, four bytes each.
pub open spec fn le_words(values: Seq<u32>) -> Seq<u8>
    decreases values.len(),
{
    if values.len() == 0 {
        Seq::empty()
    } else {
        le_bytes(values[0] as int, 4) + le_words(values.drop_first())
    }
}

/// The bytes that the record with the fields `f` is written as: the counts
/// and type codes at fixed width, then each sequence behind its length.
pub open spec fn record_image(f: FieldsView) -> Seq<u8> {
    le_bytes(f.npast as int, 8) + (le_bytes(f.last_n_size as int, 8) + (le_bytes(
        f.memory_k_type as int,
        4,
    ) + (le_bytes(f.memory_v_type as int, 4) + (le_bytes(f.memory_k.len() as int, 8) + (f.memory_k
        + (le_bytes(f.memory_v.len() as int, 8) + (f.memory_v + (le_bytes(
        f.last_n_tokens.len() as int,
        8,
    ) + (le_words(f.last_n_tokens) + (le_bytes(f.logits.len() as int, 8) + le_words(
        f.logits,
    )))))))))))
}

/// The number that `bytes` start with, in `width` bytes, and what follows
/// it; nothing where `bytes` are too short.
pub open spec fn take_number(bytes: Seq<u8>, width: nat) -> Option<(int, Seq<u8>)> {
    if bytes.len() >= width {
        Some((le_value(bytes, width), bytes.skip(width as int)))
    } else {
        None
    }
}

/// The `count` bytes that `bytes` start with, and what follows them.
pub open spec fn take_bytes(bytes: Seq<u8>, count: int) -> Option<(Seq<u8>, Seq<u8>)> {
    if 0 <= count <= bytes.len() {
        Some((bytes.subrange(0, count), bytes.skip(count)))
    } else {
        None
    }
}

/// The `count` numbers of four bytes that `bytes` start with, and what
/// follows them.
pub open spec fn take_words(bytes: Seq<u8>, count: nat) -> Option<(Seq<u32>, Seq<u8>)>
    decreases count,
{
    if count == 0 {
        Some((Seq::empty(), bytes))
    } else {
        match take_number(bytes, 4) {
            None => None,
            Some((first, rest)) => match take_words(rest, (count - 1) as nat) {
                None => None,
                Some((others, after)) => Some((seq![first as u32] + others, after)),
            },
        }
    }
}

/// A sequence behind its length: the bytes that `bytes` start with.
pub open spec fn take_memory(bytes: Seq<u8>) -> Option<(Seq<u8>, Seq<u8>)> {
    match take_number(bytes, 8) {
        None => None,
        Some((count, rest)) => take_bytes(rest, count),
    }
}

/// A sequence of numbers behind its length.
pub open spec fn take_numbers(bytes: Seq<u8>) -> Option<(Seq<u32>, Seq<u8>)> {
    match take_number(bytes, 8) {
        None => None,
        Some((count, rest)) => take_words(rest, count as nat),
    }
}

/// The fields of the record that `bytes` start with, if they start with one:
/// the fields are taken one after the other, and the bytes must not end
/// before the last of them.
pub open spec fn parsed(bytes: Seq<u8>) -> Option<FieldsView> {
    match take_number(bytes, 8) {
        None => None,
        Some((npast, b1)) => match take_number(b1, 8) {
            None => None,
            Some((last_n_size, b2)) => match take_number(b2, 4) {
                None => None,
                Some((memory_k_type, b3)) => match take_number(b3, 4) {
                    None => None,
                    Some((memory_v_type, b4)) => match take_memory(b4) {
                        None => None,
                        Some((memory_k, b5)) => match take_memory(b5) {
                            None => None,
                            Some((memory_v, b6)) => match take_numbers(b6) {
                                None => None,
                                Some((last_n_tokens, b7)) => match take_numbers(b7) {
                                    None => None,
                                    Some((logits, b8)) => Some(
                                        FieldsView {
                                            npast: npast as u64,
                                            last_n_size: last_n_size as u64,
                                            memory_k_type: memory_k_type as u32,
                                            memory_v_type: memory_v_type as u32,
                                            memory_k,
                                            memory_v,
                                            last_n_tokens,
                                            logits,
                                        },
                                    ),
                                },
                            },
                        },
                    },
                },
            },
        },
    }
}

/// Writes a record.
///
/// Trusted: calls `bincode::serialize` on the fields as a tuple, the three
/// parameters of the session as a tuple within it. With the options of that
/// function `bincode` writes a tuple as its members in order, an integer in
/// as many bytes as its type has, lowest byte first, and a sequence as its
/// length in eight bytes and then its members. What it writes for a record
/// with these fields is the same. The function sets no limit on the size,
/// every sequence knows its length and the bytes go into a vector, so
/// nothing in it can fail.
#[verifier::external_body]
pub(crate) fn encode_fields(
    npast: u64,
    last_n_size: u64,
    memory_k_type: u32,
    memory_v_type: u32,
    memory_k: &[u8],
    memory_v: &[u8],
    last_n_tokens: &VecDeque<TokenId>,
    logits: &Vec<u32>,
) -> (r: Result<Vec<u8>, Box<bincode::ErrorKind>>)
    ensures
        r is Ok,
        r->Ok_0@ == record_image(
            FieldsView {
                npast,
                last_n_size,
                memory_k_type,
                memory_v_type,
                memory_k: memory_k@,
                memory_v: memory_v@,
                last_n_tokens: last_n_tokens@,
                logits: logits@,
            },
        ),
{
    let session = (last_n_size, memory_k_type, memory_v_type);
    bincode::serialize(&(npast, session, memory_k, memory_v, last_n_tokens, logits))
}

/// Reads a record from the start of `bytes`.
///
/// Trusted: calls `bincode::deserialize` for the fields as a tuple. It takes
/// the fields one after the other as they are written, fails where the bytes
/// end before the last of them, and leaves bytes after the record unread.
#[verifier::external_body]
pub(crate) fn decode_fields(bytes: &[u8]) -> (r: Result<SnapshotFields, Box<bincode::ErrorKind>>)
    ensures
        match parsed(bytes@) {
            Some(fields) => r is Ok && r->Ok_0@ == fields,
            None => r is Err,
        },
{
    let (npast, session, memory_k, memory_v, last_n_tokens, logits) = bincode::deserialize(bytes)?;
    let (last_n_size, memory_k_type, memory_v_type) = session;
    let (memory_k, memory_v) = (memory_k, memory_v);
    Ok(SnapshotFields { npast, last_n_size, memory_k_type, memory_v_type, memory_k, memory_v, last_n_tokens, logits })
}

/// The description of an error of the codec.
///
/// Trusted: calls `to_string` of `bincode::ErrorKind`. Nothing is claimed of
/// the text.
#[verifier::external_body]
pub(crate) fn error_text(error: &Box<bincode::ErrorKind>) -> (r: String) {
    error.to_string()
}

impl ModelKVMemoryType {
    /// The number that stands for the type in a record.
    pub open spec fn spec_code(self) -> u32 {
        match self {
            ModelKVMemoryType::Float16 => 0,
            ModelKVMemoryType::Float32 => 1,
        }
    }

    /// The type that `code` stands for in a record.
    pub open spec fn of_code(code: u32) -> Option<ModelKVMemoryType> {
        if code == 0 {
            Some(ModelKVMemoryType::Float16)
        } else if code == 1 {
            Some(ModelKVMemoryType::Float32)
        } else {
            None
        }
    }

    pub fn code(&self) -> (r: u32)
        ensures
            r == self.spec_code(),
    {
        match self {
            ModelKVMemoryType::Float16 => 0,
            ModelKVMemoryType::Float32 => 1,
        }
    }

    pub fn from_code(code: u32) -> (r: Option<ModelKVMemoryType>)
        ensures
            r == Self::of_code(code),
    {
        if code == 0 {
            Some(ModelKVMemoryType::Float16)
        } else if code == 1 {
            Some(ModelKVMemoryType::Float32)
        } else {
            None
        }
    }
}

/// The bit patterns of `logits`.
pub open spec fn patterns(logits: Seq<F32Bits>) -> Seq<u32> {
    Seq::new(logits.len(), |i: int| logits[i].bits)
}

/// The values with the bit patterns `bits`.
pub open spec fn valued(bits: Seq<u32>) -> Seq<F32Bits> {
    Seq::new(bits.len(), |i: int| F32Bits { bits: bits[i] })
}

/// The fields that a snapshot is written with.
pub open spec fn fields_of(s: SnapshotView) -> FieldsView {
    FieldsView {
        npast: s.npast as u64,
        last_n_size: s.session_params.last_n_size as u64,
        memory_k_type: s.session_params.memory_k_type.spec_code(),
        memory_v_type: s.session_params.memory_v_type.spec_code(),
        memory_k: s.memory_k,
        memory_v: s.memory_v,
        last_n_tokens: s.last_n_tokens,
        logits: patterns(s.last_logits),
    }
}

/// The fields are those of a snapshot on this machine: the counts fit its
/// word and the type codes stand for types.
pub open spec fn readable(f: FieldsView) -> bool {
    &&& f.npast <= usize::MAX
    &&& f.last_n_size <= usize::MAX
    &&& ModelKVMemoryType::of_code(f.memory_k_type) is Some
    &&& ModelKVMemoryType::of_code(f.memory_v_type) is Some
}

/// The snapshot with the fields `f`.
pub open spec fn snapshot_with(f: FieldsView) -> SnapshotView {
    SnapshotView {
        npast: f.npast as usize,
        session_params: InferenceSessionParameters {
            last_n_size: f.last_n_size as usize,
            memory_k_type: ModelKVMemoryType::of_code(f.memory_k_type)->0,
            memory_v_type: ModelKVMemoryType::of_code(f.memory_v_type)->0,
        },
        memory_k: f.memory_k,
        memory_v: f.memory_v,
        last_n_tokens: f.last_n_tokens,
        last_logits: valued(f.logits),
    }
}

/// Reading the fields that a snapshot is written with gives the snapshot.
pub proof fn lemma_fields_round_trip(s: SnapshotView)
    ensures
        readable(fields_of(s)),
        snapshot_with(fields_of(s)) == s,
{
    let again = snapshot_with(fields_of(s));
    assert(again.last_logits =~= s.last_logits);
    assert(again.session_params == s.session_params);
}

/// A number that is written in `width` bytes is read back from them,
/// whatever follows.
pub proof fn lemma_number_round_trip(value: int, width: nat, rest: Seq<u8>)
    requires
        0 <= value < range_of(width),
    ensures
        le_bytes(value, width).len() == width,
        take_number(le_bytes(value, width) + rest, width) == Some((value, rest)),
    decreases width,
{
    let written = le_bytes(value, width) + rest;
    if width == 0 {
        assert(written.skip(0) =~= rest);
    } else {
        let low = (value % 256) as u8;
        let high = value / 256;
        lemma_number_round_trip(high, (width - 1) as nat, rest);
        let tail = le_bytes(high, (width - 1) as nat);
        assert(written.skip(1) =~= tail + rest);
        assert(written[0] == low);
        assert((tail + rest).skip(width - 1) =~= rest);
        assert(written.skip(width as int) =~= rest);
    }
}

/// Four bytes write the numbers below two to the power 32, eight bytes those
/// below two to the power 64.
pub proof fn lemma_ranges()
    ensures
        range_of(4) == 0x1_0000_0000,
        range_of(8) == 0x1_0000_0000_0000_0000,
{
    assert(range_of(0) == 1);
    assert(range_of(1) == 0x100);
    assert(range_of(2) == 0x1_0000);
    assert(range_of(3) == 0x100_0000);
    assert(range_of(4) == 0x1_0000_0000);
    assert(range_of(5) == 0x100_0000_0000);
    assert(range_of(6) == 0x1_0000_0000_0000);
    assert(range_of(7) == 0x100_0000_0000_0000);
    assert(range_of(8) == 0x1_0000_0000_0000_0000);
}

/// Numbers of four bytes that are written one after the other are read back,
/// whatever follows.
pub proof fn lemma_words_round_trip(values: Seq<u32>, rest: Seq<u8>)
    ensures
        le_words(values).len() == 4 * values.len(),
        take_words(le_words(values) + rest, values.len()) == Some((values, rest)),
    decreases values.len(),
{
    if values.len() == 0 {
        assert(le_words(values) + rest =~= rest);
    } else {
        let first = values[0];
        let others = values.drop_first();
        lemma_words_round_trip(others, rest);
        lemma_ranges();
        lemma_number_round_trip(first as int, 4, le_words(others) + rest);
        assert(le_words(values) + rest =~= le_bytes(first as int, 4) + (le_words(others) + rest));
        assert(seq![first] + others =~= values);
    }
}

/// Bytes that are written behind their number are read back, whatever
/// follows.
pub proof fn lemma_memory_round_trip(memory: Seq<u8>, rest: Seq<u8>)
    requires
        memory.len() <= u64::MAX,
    ensures
        take_memory(le_bytes(memory.len() as int, 8) + (memory + rest)) == Some((memory, rest)),
{
    lemma_ranges();
    lemma_number_round_trip(memory.len() as int, 8, memory + rest);
    assert((memory + rest).subrange(0, memory.len() as int) =~= memory);
    assert((memory + rest).skip(memory.len() as int) =~= rest);
}

/// Numbers that are written behind their count are read back, whatever
/// follows.
pub proof fn lemma_numbers_round_trip(values: Seq<u32>, rest: Seq<u8>)
    requires
        values.len() <= u64::MAX,
    ensures
        take_numbers(le_bytes(values.len() as int, 8) + (le_words(values) + rest)) == Some(
            (values, rest),
        ),
{
    lemma_ranges();
    lemma_number_round_trip(values.len() as int, 8, le_words(values) + rest);
    lemma_words_round_trip(values, rest);
}

/// A record that is written is read back, whatever follows it.
pub proof fn lemma_record_round_trip(f: FieldsView, rest: Seq<u8>)
    requires
        f.memory_k.len() <= u64::MAX,
        f.memory_v.len() <= u64::MAX,
        f.last_n_tokens.len() <= u64::MAX,
        f.logits.len() <= u64::MAX,
    ensures
        parsed(record_image(f) + rest) == Some(f),
{
    lemma_ranges();
    let from_logits = le_bytes(f.logits.len() as int, 8) + (le_words(f.logits) + rest);
    let from_ring = le_bytes(f.last_n_tokens.len() as int, 8) + (le_words(f.last_n_tokens) + from_logits);
    let from_values = le_bytes(f.memory_v.len() as int, 8) + (f.memory_v + from_ring);
    let from_keys = le_bytes(f.memory_k.len() as int, 8) + (f.memory_k + from_values);
    let from_value_type = le_bytes(f.memory_v_type as int, 4) + from_keys;
    let from_key_type = le_bytes(f.memory_k_type as int, 4) + from_value_type;
    let from_ring_size = le_bytes(f.last_n_size as int, 8) + from_key_type;
    let from_start = le_bytes(f.npast as int, 8) + from_ring_size;
    assert(record_image(f) + rest =~= from_start);
    lemma_number_round_trip(f.npast as int, 8, from_ring_size);
    assert(take_number(from_start, 8) == Some((f.npast as int, from_ring_size)));
    lemma_number_round_trip(f.last_n_size as int, 8, from_key_type);
    assert(take_number(from_ring_size, 8) == Some((f.last_n_size as int, from_key_type)));
    lemma_number_round_trip(f.memory_k_type as int, 4, from_value_type);
    assert(take_number(from_key_type, 4) == Some((f.memory_k_type as int, from_value_type)));
    lemma_number_round_trip(f.memory_v_type as int, 4, from_keys);
    assert(take_number(from_value_type, 4) == Some((f.memory_v_type as int, from_keys)));
    lemma_memory_round_trip(f.memory_k, from_values);
    assert(take_memory(from_keys) == Some((f.memory_k, from_values)));
    lemma_memory_round_trip(f.memory_v, from_ring);
    assert(take_memory(from_values) == Some((f.memory_v, from_ring)));
    lemma_numbers_round_trip(f.last_n_tokens, from_logits);
    assert(take_numbers(from_ring) == Some((f.last_n_tokens, from_logits)));
    lemma_numbers_round_trip(f.logits, rest);
    assert(take_numbers(from_logits) == Some((f.logits, rest)));
}

fn bits_of(logits: &Vec<F32Bits>) -> (r: Vec<u32>)
    ensures
        r@ == patterns(logits@),
{
    let mut out: Vec<u32> = Vec::with_capacity(logits.len());
    let mut i: usize = 0;
    while i < logits.len()
        invariant
            i <= logits.len(),
            out@ == patterns(logits@).subrange(0, i as int),
        decreases logits.len() - i,
    {
        out.push(logits[i].bits);
        proof {
            assert(out@ =~= patterns(logits@).subrange(0, i + 1));
        }
        i = i + 1;
    }
    proof {
        assert(out@ =~= patterns(logits@));
    }
    out
}

fn values_of(bits: &Vec<u32>) -> (r: Vec<F32Bits>)
    ensures
        r@ == valued(bits@),
{
    let mut out: Vec<F32Bits> = Vec::with_capacity(bits.len());
    let mut i: usize = 0;
    while i < bits.len()
        invariant
            i <= bits.len(),
            out@ == valued(bits@).subrange(0, i as int),
        decreases bits.len() - i,
    {
        out.push(F32Bits { bits: bits[i] });
        proof {
            assert(out@ =~= valued(bits@).subrange(0, i + 1));
        }
        i = i + 1;
    }
    proof {
        assert(out@ =~= valued(bits@));
    }
    out
}

impl<'a> InferenceSnapshotRef<'a> {
    /// The snapshot as the bytes of its record. Every snapshot can be
    /// written.
    pub fn write(&self) -> (r: Result<Vec<u8>, SnapshotError>)
        ensures
            r is Ok,
            r->Ok_0@ == record_image(fields_of(self@)),
    {
        let logits = bits_of(&self.logits);
        let written = encode_fields(
            self.npast as u64,
            self.session_params.last_n_size as u64,
            self.session_params.memory_k_type.code(),
            self.session_params.memory_v_type.code(),
            self.memory_k,
            self.memory_v,
            &self.last_n_tokens,
            &logits,
        );
        match written {
            Ok(bytes) => Ok(bytes),
            Err(e) => Err(SnapshotError::Serialization { message: error_text(&e) }),
        }
    }
}

impl InferenceSnapshot {
    /// The snapshot with the fields `fields`, or `Serialization` where a
    /// count does not fit the machine's word or a type code stands for no
    /// type.
    pub fn from_fields(fields: SnapshotFields) -> (r: Result<InferenceSnapshot, SnapshotError>)
        ensures
            readable(fields@) ==> r is Ok && r->Ok_0@ == snapshot_with(fields@),
            !readable(fields@) ==> r is Err && r->Err_0 is Serialization,
    {
        let key = ModelKVMemoryType::from_code(fields.memory_k_type);
        let value = ModelKVMemoryType::from_code(fields.memory_v_type);
        if fields.npast > usize::MAX as u64 || fields.last_n_size > usize::MAX as u64 {
            return Err(
                SnapshotError::Serialization {
                    message: String::from_str("a count of the snapshot exceeds the machine's word"),
                },
            );
        }
        match (key, value) {
            (Some(memory_k_type), Some(memory_v_type)) => Ok(
                InferenceSnapshot {
                    npast: fields.npast as usize,
                    session_params: InferenceSessionParameters {
                        last_n_size: fields.last_n_size as usize,
                        memory_k_type,
                        memory_v_type,
                    },
                    last_logits: values_of(&fields.logits),
                    memory_k: fields.memory_k,
                    memory_v: fields.memory_v,
                    last_n_tokens: fields.last_n_tokens,
                },
            ),
            _ => Err(
                SnapshotError::Serialization {
                    message: String::from_str("a memory type of the snapshot is unknown"),
                },
            ),
        }
    }

    /// Reads a snapshot from the start of `bytes`. Fails with
    /// `Serialization` where the bytes do not start with a record, or the
    /// record is not that of a snapshot on this machine.
    pub fn read(bytes: &[u8]) -> (r: Result<InferenceSnapshot, SnapshotError>)
        ensures
            match parsed(bytes@) {
                Some(fields) => if readable(fields) {
                    r is Ok && r->Ok_0@ == snapshot_with(fields)
                } else {
                    r is Err && r->Err_0 is Serialization
                },
                None => r is Err && r->Err_0 is Serialization,
            },
    {
        match decode_fields(bytes) {
            Ok(fields) => InferenceSnapshot::from_fields(fields),
            Err(e) => Err(SnapshotError::Serialization { message: error_text(&e) }),
        }
    }
}

} // verus!
