//! The MLS wire encoding of the primitive values that the credentials and
//! the signed requests are made of: fixed-width integers in network byte
//! order, and byte strings that carry their length in a variable-size
//! integer.

use vstd::prelude::*;
use vstd::bytes::{
    lemma_auto_spec_u64_to_from_le_bytes, spec_u64_from_le_bytes, spec_u64_to_le_bytes,
    u64_from_le_bytes, u64_to_le_bytes,
};
use vstd::utf8::{decode_utf8, encode_utf8, valid_utf8};
use vstd::bytes::{
    lemma_auto_spec_u32_to_from_le_bytes, spec_u32_from_le_bytes, spec_u32_to_le_bytes,
    u32_from_le_bytes, u32_to_le_bytes,
};
use crate::support::text::{decimal_text, join_text, text_from_utf8, u8_to_text};

verus! {

/// Why a value could not be encoded or decoded.
#[derive(Debug, Clone, Copy, PartialEq, Eq, Structural)]
pub enum CodecError {
    /// A length of 2^30 or more does not fit a variable-size integer.
    VarIntOutOfRange,
    /// The two highest bits of a variable-size integer were both set.
    InvalidVarIntPrefix(u8),
    /// A variable-size integer was written with more bytes than it needs.
    VarIntMinimumLengthEncoding,
    /// The input ended before the value did.
    UnexpectedEOF,
    /// The marker of an optional value is neither 0 nor 1.
    OptionOutOfRange(u8),
    /// The number of an enum's variant is not known.
    UnsupportedEnumDiscriminant,
    /// A byte string that should be text is no UTF-8.
    Utf8,
    /// A proposal is not of the type that was asked for.
    WrongProposalType,
}

impl CodecError {
    pub open spec fn spec_message(self) -> Seq<char> {
        match self {
            CodecError::VarIntOutOfRange => "Integer out of range for VarInt"@,
            CodecError::InvalidVarIntPrefix(_) => "Invalid varint prefix 3"@,
            CodecError::VarIntMinimumLengthEncoding => "VarInt does not use the min-length encoding"@,
            CodecError::UnexpectedEOF => "UnexpectedEOF"@,
            CodecError::OptionOutOfRange(n) => "Option marker out of range: "@ + decimal_text(
                n as nat,
            ),
            CodecError::UnsupportedEnumDiscriminant => "Unsupported enum discriminant"@,
            CodecError::Utf8 => "Expected UTF-8 string"@,
            CodecError::WrongProposalType => "mls codec error: 4"@,
        }
    }

    /// The error in words.
    pub fn message(&self) -> (s: String)
        ensures
            s@ == self.spec_message(),
    {
        match self {
            CodecError::VarIntOutOfRange => "Integer out of range for VarInt".to_string(),
            CodecError::InvalidVarIntPrefix(_) => "Invalid varint prefix 3".to_string(),
            CodecError::VarIntMinimumLengthEncoding => "VarInt does not use the min-length encoding".to_string(),
            CodecError::UnexpectedEOF => "UnexpectedEOF".to_string(),
            CodecError::OptionOutOfRange(n) => {
                let number = u8_to_text(*n);
                join_text("Option marker out of range: ", number.as_str())
            },
            CodecError::UnsupportedEnumDiscriminant => "Unsupported enum discriminant".to_string(),
            CodecError::Utf8 => "Expected UTF-8 string".to_string(),
            CodecError::WrongProposalType => "mls codec error: 4".to_string(),
        }
    }
}

/// The first length that a variable-size integer cannot hold: 2^30.
pub const VARINT_LIMIT: usize = 0x4000_0000;

/// A 64-bit integer in network byte order: eight bytes, the most
/// significant first.
pub open spec fn be_u64(v: u64) -> Seq<u8> {
    spec_u64_to_le_bytes(v).reverse()
}

/// The integer that eight bytes in network byte order stand for.
pub open spec fn from_be_u64(s: Seq<u8>) -> u64 {
    spec_u64_from_le_bytes(s.reverse())
}

/// A length as a variable-size integer: one byte below 64, two bytes below
/// 2^14, four bytes below 2^30. The two highest bits of the first byte say
/// which.
pub open spec fn varint(n: nat) -> Seq<u8>
    recommends
        n < VARINT_LIMIT,
{
    if n < 64 {
        seq![n as u8]
    } else if n < 16384 {
        seq![(64 + n / 256) as u8, (n % 256) as u8]
    } else {
        seq![
            (128 + n / 16777216) as u8,
            (n / 65536 % 256) as u8,
            (n / 256 % 256) as u8,
            (n % 256) as u8,
        ]
    }
}

/// A byte string on the wire: its length, then its bytes.
pub open spec fn byte_string(b: Seq<u8>) -> Seq<u8>
    recommends
        b.len() < VARINT_LIMIT,
{
    varint(b.len()) + b
}

/// A text on the wire: the byte string of its UTF-8 form.
pub open spec fn text_string(t: Seq<char>) -> Seq<u8> {
    byte_string(encode_utf8(t))
}

/// Reads a variable-size integer at `at`: the value and the place behind it.
#[verifier::opaque]
pub open spec fn parse_varint(data: Seq<u8>, at: int) -> Result<(nat, int), CodecError> {
    if at >= data.len() {
        Err(CodecError::UnexpectedEOF)
    } else {
        let first = data[at] as nat;
        let prefix = first / 64;
        if prefix == 3 {
            Err(CodecError::InvalidVarIntPrefix(3))
        } else if prefix == 0 {
            Ok((first, at + 1))
        } else if prefix == 1 {
            if at + 2 > data.len() {
                Err(CodecError::UnexpectedEOF)
            } else {
                let n = (first % 64) * 256 + data[at + 1] as nat;
                if n < 64 {
                    Err(CodecError::VarIntMinimumLengthEncoding)
                } else {
                    Ok((n, at + 2))
                }
            }
        } else {
            if at + 4 > data.len() {
                Err(CodecError::UnexpectedEOF)
            } else {
                let n = (((first % 64) * 256 + data[at + 1] as nat) * 256 + data[at + 2] as nat)
                    * 256 + data[at + 3] as nat;
                if n < 16384 {
                    Err(CodecError::VarIntMinimumLengthEncoding)
                } else {
                    Ok((n, at + 4))
                }
            }
        }
    }
}

/// Reads a 64-bit integer at `at`.
#[verifier::opaque]
pub open spec fn parse_u64(data: Seq<u8>, at: int) -> Result<(u64, int), CodecError> {
    if at + 8 > data.len() {
        Err(CodecError::UnexpectedEOF)
    } else {
        Ok((from_be_u64(data.subrange(at, at + 8)), at + 8))
    }
}

/// Reads a byte string at `at`.
#[verifier::opaque]
pub open spec fn parse_bytes(data: Seq<u8>, at: int) -> Result<(Seq<u8>, int), CodecError> {
    match parse_varint(data, at) {
        Err(e) => Err(e),
        Ok((n, start)) => {
            if start + n > data.len() {
                Err(CodecError::UnexpectedEOF)
            } else {
                Ok((data.subrange(start, start + n), start + n))
            }
        },
    }
}

/// Reads a text at `at`.
#[verifier::opaque]
pub open spec fn parse_text(data: Seq<u8>, at: int) -> Result<(Seq<char>, int), CodecError> {
    match parse_bytes(data, at) {
        Err(e) => Err(e),
        Ok((b, next)) => {
            if valid_utf8(b) {
                Ok((decode_utf8(b), next))
            } else {
                Err(CodecError::Utf8)
            }
        },
    }
}

/// Appends a 64-bit integer in network byte order.
pub fn write_u64(out: &mut Vec<u8>, v: u64)
    ensures
        final(out)@ == old(out)@ + be_u64(v),
{
    let le = u64_to_le_bytes(v);
    let mut i: usize = 8;
    while i > 0
        invariant
            i <= 8,
            le@.len() == 8,
            le@ == spec_u64_to_le_bytes(v),
            out@ == old(out)@ + le@.reverse().subrange(0, 8 - i),
        decreases i,
    {
        i -= 1;
        out.push(le[i]);
        assert(out@ =~= old(out)@ + le@.reverse().subrange(0, 8 - i));
    }
    assert(le@.reverse().subrange(0, 8) =~= le@.reverse());
}

/// Appends a length as a variable-size integer.
fn write_varint(out: &mut Vec<u8>, n: usize)
    requires
        n < VARINT_LIMIT,
    ensures
        final(out)@ == old(out)@ + varint(n as nat),
{
    if n < 64 {
        out.push(n as u8);
        assert(out@ =~= old(out)@ + varint(n as nat));
    } else if n < 16384 {
        out.push((64 + n / 256) as u8);
        out.push((n % 256) as u8);
        assert(out@ =~= old(out)@ + varint(n as nat));
    } else {
        out.push((128 + n / 16777216) as u8);
        out.push((n / 65536 % 256) as u8);
        out.push((n / 256 % 256) as u8);
        out.push((n % 256) as u8);
        assert(out@ =~= old(out)@ + varint(n as nat));
    }
}

/// Appends a byte string. A string of 2^30 bytes or more cannot be written
/// and leaves the output as it was.
pub fn write_bytes(out: &mut Vec<u8>, b: &[u8]) -> (r: Result<(), CodecError>)
    ensures
        match r {
            Ok(()) => b@.len() < VARINT_LIMIT && final(out)@ == old(out)@ + byte_string(b@),
            Err(e) => e == CodecError::VarIntOutOfRange && b@.len() >= VARINT_LIMIT && final(out)@
                == old(out)@,
        },
{
    if b.len() >= VARINT_LIMIT {
        return Err(CodecError::VarIntOutOfRange);
    }
    write_varint(out, b.len());
    let ghost mid = out@;
    let mut i: usize = 0;
    while i < b.len()
        invariant
            i <= b.len(),
            out@ == mid + b@.subrange(0, i as int),
        decreases b.len() - i,
    {
        out.push(b[i]);
        i += 1;
        assert(out@ =~= mid + b@.subrange(0, i as int));
    }
    assert(b@.subrange(0, b@.len() as int) =~= b@);
    assert(out@ =~= old(out)@ + byte_string(b@));
    Ok(())
}

/// Appends a text as the byte string of its UTF-8 form.
pub fn write_text(out: &mut Vec<u8>, t: &str) -> (r: Result<(), CodecError>)
    ensures
        match r {
            Ok(()) => encode_utf8(t@).len() < VARINT_LIMIT && final(out)@ == old(out)@
                + text_string(t@),
            Err(e) => e == CodecError::VarIntOutOfRange && encode_utf8(t@).len() >= VARINT_LIMIT
                && final(out)@ == old(out)@,
        },
{
    write_bytes(out, t.as_bytes())
}

/// Reads a variable-size integer at `at`.
pub fn read_varint(data: &[u8], at: usize) -> (r: Result<(usize, usize), CodecError>)
    requires
        at <= data@.len(),
    ensures
        match (r, parse_varint(data@, at as int)) {
            (Ok((n, next)), Ok((sn, snext))) => n == sn && next == snext && next <= data@.len()
                && n < VARINT_LIMIT,
            (Err(e), Err(se)) => e == se,
            _ => false,
        },
{
    reveal(parse_varint);
    if at >= data.len() {
        return Err(CodecError::UnexpectedEOF);
    }
    let first: u8 = data[at];
    let prefix: u8 = first / 64;
    if prefix == 3 {
        Err(CodecError::InvalidVarIntPrefix(3))
    } else if prefix == 0 {
        Ok((first as usize, at + 1))
    } else if prefix == 1 {
        if data.len() - at < 2 {
            return Err(CodecError::UnexpectedEOF);
        }
        let n: usize = (first % 64) as usize * 256 + data[at + 1] as usize;
        if n < 64 {
            Err(CodecError::VarIntMinimumLengthEncoding)
        } else {
            Ok((n, at + 2))
        }
    } else {
        if data.len() - at < 4 {
            return Err(CodecError::UnexpectedEOF);
        }
        let hi: usize = (first % 64) as usize * 256 + data[at + 1] as usize;
        let n: usize = (hi * 256 + data[at + 2] as usize) * 256 + data[at + 3] as usize;
        if n < 16384 {
            Err(CodecError::VarIntMinimumLengthEncoding)
        } else {
            Ok((n, at + 4))
        }
    }
}

/// Reads a 64-bit integer at `at`.
pub fn read_u64(data: &[u8], at: usize) -> (r: Result<(u64, usize), CodecError>)
    requires
        at <= data@.len(),
    ensures
        match (r, parse_u64(data@, at as int)) {
            (Ok((v, next)), Ok((sv, snext))) => v == sv && next == snext && next <= data@.len(),
            (Err(e), Err(se)) => e == se,
            _ => false,
        },
{
    reveal(parse_u64);
    if data.len() - at < 8 {
        return Err(CodecError::UnexpectedEOF);
    }
    let ghost window = data@.subrange(at as int, at + 8);
    let mut le: Vec<u8> = Vec::new();
    let mut i: usize = 8;
    while i > 0
        invariant
            i <= 8,
            at + 8 <= data.len(),
            window == data@.subrange(at as int, at + 8),
            le@ == window.reverse().subrange(0, 8 - i),
        decreases i,
    {
        i -= 1;
        le.push(data[at + i]);
        assert(le@ =~= window.reverse().subrange(0, 8 - i));
    }
    assert(le@ =~= window.reverse());
    let v = u64_from_le_bytes(le.as_slice());
    Ok((v, at + 8))
}

/// Reads a byte string at `at`.
pub fn read_bytes(data: &[u8], at: usize) -> (r: Result<(Vec<u8>, usize), CodecError>)
    requires
        at <= data@.len(),
    ensures
        match (r, parse_bytes(data@, at as int)) {
            (Ok((b, next)), Ok((sb, snext))) => b@ == sb && next == snext && next <= data@.len(),
            (Err(e), Err(se)) => e == se,
            _ => false,
        },
{
    reveal(parse_bytes);
    let (n, start) = match read_varint(data, at) {
        Ok(pair) => pair,
        Err(e) => {
            return Err(e);
        },
    };
    if n > data.len() - start {
        return Err(CodecError::UnexpectedEOF);
    }
    let mut b: Vec<u8> = Vec::new();
    let mut i: usize = 0;
    while i < n
        invariant
            i <= n,
            start + n <= data.len(),
            b@ == data@.subrange(start as int, start + i),
        decreases n - i,
    {
        b.push(data[start + i]);
        i += 1;
        assert(b@ =~= data@.subrange(start as int, start + i));
    }
    Ok((b, start + n))
}

/// Reads a text at `at`.
pub fn read_text(data: &[u8], at: usize) -> (r: Result<(String, usize), CodecError>)
    requires
        at <= data@.len(),
    ensures
        match (r, parse_text(data@, at as int)) {
            (Ok((t, next)), Ok((st, snext))) => t@ == st && next == snext && next <= data@.len(),
            (Err(e), Err(se)) => e == se,
            _ => false,
        },
{
    reveal(parse_text);
    let (b, next) = match read_bytes(data, at) {
        Ok(pair) => pair,
        Err(e) => {
            return Err(e);
        },
    };
    match text_from_utf8(b) {
        Ok(t) => Ok((t, next)),
        Err(_) => Err(CodecError::Utf8),
    }
}

/// Reading gives back what was written: a 64-bit integer.
pub proof fn lemma_parse_u64(head: Seq<u8>, v: u64, tail: Seq<u8>)
    ensures
        be_u64(v).len() == 8,
        parse_u64(head + be_u64(v) + tail, head.len() as int) == Ok::<(u64, int), CodecError>(
            (v, (head.len() + 8) as int),
        ),
{
    reveal(parse_u64);
    lemma_auto_spec_u64_to_from_le_bytes();
    let le = spec_u64_to_le_bytes(v);
    let data = head + be_u64(v) + tail;
    let at = head.len() as int;
    assert(data.subrange(at, at + 8) =~= be_u64(v));
    assert(le.reverse().reverse() =~= le);
}

/// Reading gives back what was written: a length.
pub proof fn lemma_parse_varint(head: Seq<u8>, n: nat, tail: Seq<u8>)
    requires
        n < VARINT_LIMIT,
    ensures
        parse_varint(head + varint(n) + tail, head.len() as int) == Ok::<(nat, int), CodecError>(
            (n, (head.len() + varint(n).len()) as int),
        ),
{
    reveal(parse_varint);
    let data = head + varint(n) + tail;
    let at = head.len() as int;
    assert(data[at] == varint(n)[0]);
    if n < 64 {
    } else if n < 16384 {
        assert(data[at + 1] == varint(n)[1]);
    } else {
        assert(data[at + 1] == varint(n)[1]);
        assert(data[at + 2] == varint(n)[2]);
        assert(data[at + 3] == varint(n)[3]);
    }
}

/// Reading gives back what was written: a byte string.
pub proof fn lemma_parse_bytes(head: Seq<u8>, b: Seq<u8>, tail: Seq<u8>)
    requires
        b.len() < VARINT_LIMIT,
    ensures
        parse_bytes(head + byte_string(b) + tail, head.len() as int) == Ok::<
            (Seq<u8>, int),
            CodecError,
        >((b, (head.len() + byte_string(b).len()) as int)),
{
    reveal(parse_bytes);
    let data = head + byte_string(b) + tail;
    assert(data =~= head + varint(b.len()) + (b + tail));
    lemma_parse_varint(head, b.len(), b + tail);
    let start = (head.len() + varint(b.len()).len()) as int;
    assert(data.subrange(start, start + b.len()) =~= b);
}

/// Reading gives back what was written: a text.
pub proof fn lemma_parse_text(head: Seq<u8>, t: Seq<char>, tail: Seq<u8>)
    requires
        encode_utf8(t).len() < VARINT_LIMIT,
    ensures
        parse_text(head + text_string(t) + tail, head.len() as int) == Ok::<
            (Seq<char>, int),
            CodecError,
        >((t, (head.len() + text_string(t).len()) as int)),
{
    reveal(parse_text);
    lemma_parse_bytes(head, encode_utf8(t), tail);
    vstd::utf8::encode_utf8_valid_utf8(t);
    vstd::utf8::encode_utf8_decode_utf8(t);
}

/// A 32-bit integer in network byte order.
pub open spec fn be_u32(v: u32) -> Seq<u8> {
    spec_u32_to_le_bytes(v).reverse()
}

/// The integer that four bytes in network byte order stand for.
pub open spec fn from_be_u32(s: Seq<u8>) -> u32 {
    spec_u32_from_le_bytes(s.reverse())
}

/// A truth value on the wire: one byte, 1 or 0.
pub open spec fn bool_byte(b: bool) -> Seq<u8> {
    if b {
        seq![1u8]
    } else {
        seq![0u8]
    }
}

/// Reads one byte at `at`.
#[verifier::opaque]
pub open spec fn parse_u8(data: Seq<u8>, at: int) -> Result<(u8, int), CodecError> {
    if at + 1 > data.len() {
        Err(CodecError::UnexpectedEOF)
    } else {
        Ok((data[at], at + 1))
    }
}

/// Reads a truth value at `at`: any byte but zero counts as true.
#[verifier::opaque]
pub open spec fn parse_bool(data: Seq<u8>, at: int) -> Result<(bool, int), CodecError> {
    match parse_u8(data, at) {
        Err(e) => Err(e),
        Ok((b, next)) => Ok((b != 0, next)),
    }
}

/// Reads a 32-bit integer at `at`.
#[verifier::opaque]
pub open spec fn parse_u32(data: Seq<u8>, at: int) -> Result<(u32, int), CodecError> {
    if at + 4 > data.len() {
        Err(CodecError::UnexpectedEOF)
    } else {
        Ok((from_be_u32(data.subrange(at, at + 4)), at + 4))
    }
}

/// Reads the marker of an optional value at `at`: whether a value follows.
#[verifier::opaque]
pub open spec fn parse_marker(data: Seq<u8>, at: int) -> Result<(bool, int), CodecError> {
    match parse_u8(data, at) {
        Err(e) => Err(e),
        Ok((b, next)) => if b == 0 {
            Ok((false, next))
        } else if b == 1 {
            Ok((true, next))
        } else {
            Err(CodecError::OptionOutOfRange(b))
        },
    }
}

/// Whether what was read is what the specification reads.
pub open spec fn agrees<T>(r: Result<(T, usize), CodecError>, s: Result<(T, int), CodecError>, len: nat) -> bool {
    match (r, s) {
        (Ok((v, next)), Ok((sv, snext))) => v == sv && next == snext && next <= len,
        (Err(e), Err(se)) => e == se,
        _ => false,
    }
}

/// Appends a 32-bit integer in network byte order.
pub fn write_u32(out: &mut Vec<u8>, v: u32)
    ensures
        final(out)@ == old(out)@ + be_u32(v),
{
    let le = u32_to_le_bytes(v);
    proof {
        lemma_auto_spec_u32_to_from_le_bytes();
        assert(spec_u32_to_le_bytes(v).len() == 4);
    }
    let mut i: usize = 4;
    while i > 0
        invariant
            i <= 4,
            le@.len() == 4,
            le@ == spec_u32_to_le_bytes(v),
            out@ == old(out)@ + le@.reverse().subrange(0, 4 - i),
        decreases i,
    {
        i -= 1;
        out.push(le[i]);
        assert(out@ =~= old(out)@ + le@.reverse().subrange(0, 4 - i));
    }
    assert(le@.reverse().subrange(0, 4) =~= le@.reverse());
}

/// Appends a truth value.
pub fn write_bool(out: &mut Vec<u8>, b: bool)
    ensures
        final(out)@ == old(out)@ + bool_byte(b),
{
    if b {
        out.push(1u8);
    } else {
        out.push(0u8);
    }
    assert(out@ =~= old(out)@ + bool_byte(b));
}

/// Reads one byte at `at`.
pub fn read_u8(data: &[u8], at: usize) -> (r: Result<(u8, usize), CodecError>)
    requires
        at <= data@.len(),
    ensures
        agrees(r, parse_u8(data@, at as int), data@.len()),
{
    reveal(parse_u8);
    if at >= data.len() {
        return Err(CodecError::UnexpectedEOF);
    }
    Ok((data[at], at + 1))
}

/// Reads a truth value at `at`.
pub fn read_bool(data: &[u8], at: usize) -> (r: Result<(bool, usize), CodecError>)
    requires
        at <= data@.len(),
    ensures
        agrees(r, parse_bool(data@, at as int), data@.len()),
{
    reveal(parse_bool);
    reveal(parse_u8);
    match read_u8(data, at) {
        Ok((b, next)) => Ok((b != 0, next)),
        Err(e) => Err(e),
    }
}

/// Reads the marker of an optional value at `at`.
pub fn read_marker(data: &[u8], at: usize) -> (r: Result<(bool, usize), CodecError>)
    requires
        at <= data@.len(),
    ensures
        agrees(r, parse_marker(data@, at as int), data@.len()),
{
    reveal(parse_marker);
    reveal(parse_u8);
    match read_u8(data, at) {
        Ok((b, next)) => {
            if b == 0 {
                Ok((false, next))
            } else if b == 1 {
                Ok((true, next))
            } else {
                Err(CodecError::OptionOutOfRange(b))
            }
        },
        Err(e) => Err(e),
    }
}

/// Reads a 32-bit integer at `at`.
pub fn read_u32(data: &[u8], at: usize) -> (r: Result<(u32, usize), CodecError>)
    requires
        at <= data@.len(),
    ensures
        agrees(r, parse_u32(data@, at as int), data@.len()),
{
    reveal(parse_u32);
    if data.len() - at < 4 {
        return Err(CodecError::UnexpectedEOF);
    }
    let ghost window = data@.subrange(at as int, at + 4);
    let mut le: Vec<u8> = Vec::new();
    let mut i: usize = 4;
    while i > 0
        invariant
            i <= 4,
            at + 4 <= data.len(),
            window == data@.subrange(at as int, at + 4),
            le@ == window.reverse().subrange(0, 4 - i),
        decreases i,
    {
        i -= 1;
        le.push(data[at + i]);
        assert(le@ =~= window.reverse().subrange(0, 4 - i));
    }
    assert(le@ =~= window.reverse());
    let v = u32_from_le_bytes(le.as_slice());
    Ok((v, at + 4))
}

/// Reading never moves backwards.
pub proof fn lemma_parse_moves_on(data: Seq<u8>, at: int)
    requires
        0 <= at,
    ensures
        parse_varint(data, at) matches Ok(v) ==> v.1 > at,
        parse_bytes(data, at) matches Ok(v) ==> v.1 > at,
        parse_text(data, at) matches Ok(v) ==> v.1 > at,
{
    reveal(parse_bytes);
    reveal(parse_text);
    reveal(parse_varint);
}

} // verus!
