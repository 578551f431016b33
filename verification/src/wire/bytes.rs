//! Little-endian integers in byte strings.

use vstd::prelude::*;
use vstd::bytes::{
    lemma_auto_spec_u32_to_from_le_bytes, lemma_auto_spec_u64_to_from_le_bytes,
    spec_u32_from_le_bytes, spec_u32_to_le_bytes, spec_u64_from_le_bytes, spec_u64_to_le_bytes,
    u32_from_le_bytes, u32_to_le_bytes, u64_from_le_bytes, u64_to_le_bytes,
};
use vstd::slice::slice_subrange;

verus! {

/// The 64 bits of a signed integer, read as an unsigned one (two's
/// complement).
pub open spec fn i64_bits(v: i64) -> u64 {
    if v >= 0 {
        v as u64
    } else {
        (v + 0x1_0000_0000_0000_0000) as u64
    }
}

/// The signed integer that 64 bits stand for.
pub open spec fn bits_i64(b: u64) -> i64 {
    if b <= 0x7fff_ffff_ffff_ffff {
        b as i64
    } else {
        (b - 0x1_0000_0000_0000_0000) as i64
    }
}

/// A signed 64-bit integer in eight bytes, least significant first.
pub open spec fn le_i64(v: i64) -> Seq<u8> {
    spec_u64_to_le_bytes(i64_bits(v))
}

/// The signed integer that eight bytes stand for.
pub open spec fn from_le_i64(s: Seq<u8>) -> i64 {
    bits_i64(spec_u64_from_le_bytes(s))
}

/// Both readings of 64 bits undo each other.
pub proof fn lemma_i64_bits(v: i64)
    ensures
        bits_i64(i64_bits(v)) == v,
{
}

/// Eight bytes written from a signed integer read back as that integer.
pub proof fn lemma_le_i64(v: i64)
    ensures
        le_i64(v).len() == 8,
        from_le_i64(le_i64(v)) == v,
{
    lemma_auto_spec_u64_to_from_le_bytes();
}

/// Eight bytes written from an unsigned integer read back as that integer.
pub proof fn lemma_le_u64(v: u64)
    ensures
        spec_u64_to_le_bytes(v).len() == 8,
        spec_u64_from_le_bytes(spec_u64_to_le_bytes(v)) == v,
{
    lemma_auto_spec_u64_to_from_le_bytes();
}

/// Four bytes written from an unsigned integer read back as that integer.
pub proof fn lemma_le_u32(v: u32)
    ensures
        spec_u32_to_le_bytes(v).len() == 4,
        spec_u32_from_le_bytes(spec_u32_to_le_bytes(v)) == v,
{
    lemma_auto_spec_u32_to_from_le_bytes();
    assert(spec_u32_to_le_bytes(v).len() == 4);
}

fn to_bits(v: i64) -> (b: u64)
    ensures
        b == i64_bits(v),
{
    if v >= 0 {
        v as u64
    } else {
        u64::MAX - ((-(v + 1)) as u64)
    }
}

fn from_bits(b: u64) -> (v: i64)
    ensures
        v == bits_i64(b),
{
    if b <= 0x7fff_ffff_ffff_ffff {
        b as i64
    } else {
        -((u64::MAX - b) as i64) - 1
    }
}

/// Appends all of `b` to `out`.
pub fn push_all(out: &mut Vec<u8>, b: &[u8])
    ensures
        final(out)@ == old(out)@ + b@,
{
    let mut i: usize = 0;
    while i < b.len()
        invariant
            i <= b.len(),
            out@ == old(out)@ + b@.subrange(0, i as int),
        decreases b.len() - i,
    {
        out.push(b[i]);
        i += 1;
        assert(out@ =~= old(out)@ + b@.subrange(0, i as int));
    }
    assert(b@.subrange(0, b@.len() as int) =~= b@);
}

/// Appends an unsigned 64-bit integer, least significant byte first.
pub fn push_u64_le(out: &mut Vec<u8>, v: u64)
    ensures
        final(out)@ == old(out)@ + spec_u64_to_le_bytes(v),
{
    let b = u64_to_le_bytes(v);
    push_all(out, b.as_slice());
}

/// Appends an unsigned 32-bit integer, least significant byte first.
pub fn push_u32_le(out: &mut Vec<u8>, v: u32)
    ensures
        final(out)@ == old(out)@ + spec_u32_to_le_bytes(v),
{
    let b = u32_to_le_bytes(v);
    push_all(out, b.as_slice());
}

/// Appends a signed 64-bit integer, least significant byte first.
pub fn push_i64_le(out: &mut Vec<u8>, v: i64)
    ensures
        final(out)@ == old(out)@ + le_i64(v),
{
    push_u64_le(out, to_bits(v));
}

/// The unsigned 64-bit integer in the eight bytes from `at`.
pub fn get_u64_le(data: &[u8], at: usize) -> (v: u64)
    requires
        at + 8 <= data@.len(),
    ensures
        v == spec_u64_from_le_bytes(data@.subrange(at as int, at + 8)),
{
    let n = data.len();
    assert(at + 8 <= n);
    u64_from_le_bytes(slice_subrange(data, at, at + 8))
}

/// The unsigned 32-bit integer in the four bytes from `at`.
pub fn get_u32_le(data: &[u8], at: usize) -> (v: u32)
    requires
        at + 4 <= data@.len(),
    ensures
        v == spec_u32_from_le_bytes(data@.subrange(at as int, at + 4)),
{
    let n = data.len();
    assert(at + 4 <= n);
    u32_from_le_bytes(slice_subrange(data, at, at + 4))
}

/// The signed 64-bit integer in the eight bytes from `at`.
pub fn get_i64_le(data: &[u8], at: usize) -> (v: i64)
    requires
        at + 8 <= data@.len(),
    ensures
        v == from_le_i64(data@.subrange(at as int, at + 8)),
{
    from_bits(get_u64_le(data, at))
}

/// A copy of the bytes from `from` up to `to`.
pub fn take_bytes(data: &[u8], from: usize, to: usize) -> (b: Vec<u8>)
    requires
        from <= to <= data@.len(),
    ensures
        b@ == data@.subrange(from as int, to as int),
{
    let mut b: Vec<u8> = Vec::new();
    let mut i: usize = from;
    while i < to
        invariant
            from <= i <= to,
            to <= data.len(),
            b@ == data@.subrange(from as int, i as int),
        decreases to - i,
    {
        b.push(data[i]);
        i += 1;
        assert(b@ =~= data@.subrange(from as int, i as int));
    }
    b
}

} // verus!
