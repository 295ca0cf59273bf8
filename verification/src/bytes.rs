//! Fixed-offset, bounds-checked byte-level accessors: the bounded field
//! buffer of the codec. Multi-byte integers use the format's native order
//! (little-endian) unless a field is defined big-endian (port numbers).

use vstd::bytes::*;
use vstd::prelude::*;
use vstd::slice::slice_subrange;

use crate::error::DecodeError;

verus! {

/// Big-endian bytes of a 16-bit value (network order, used by port fields).
pub open spec fn spec_u16_to_be_bytes(x: u16) -> Seq<u8> {
    seq![((x >> 8) & 0xff) as u8, (x & 0xff) as u8]
}

/// The 16-bit value held by two big-endian bytes.
pub open spec fn spec_u16_from_be_bytes(s: Seq<u8>) -> u16
    recommends
        s.len() == 2,
{
    (((s[0] as u16) << 8) | (s[1] as u16)) as u16
}

pub proof fn lemma_u16_be_bytes_round_trip(x: u16)
    ensures
        spec_u16_to_be_bytes(x).len() == 2,
        spec_u16_from_be_bytes(spec_u16_to_be_bytes(x)) == x,
{
    assert(((((((x >> 8) & 0xff) as u8) as u16) << 8) | (((x & 0xff) as u8) as u16)) == x)
        by (bit_vector);
}

/// Little-endian bytes of a signed 64-bit counter, via its two's-complement
/// 64-bit pattern.
pub open spec fn spec_i64_to_le_bytes(x: i64) -> Seq<u8> {
    spec_u64_to_le_bytes(x as u64)
}

/// The signed 64-bit value held by eight little-endian bytes.
pub open spec fn spec_i64_from_le_bytes(s: Seq<u8>) -> i64
    recommends
        s.len() == 8,
{
    spec_u64_from_le_bytes(s) as i64
}

/// Little-endian bytes of a signed 32-bit value.
pub open spec fn spec_i32_to_le_bytes(x: i32) -> Seq<u8> {
    spec_u32_to_le_bytes(x as u32)
}

/// The signed 32-bit value held by four little-endian bytes.
pub open spec fn spec_i32_from_le_bytes(s: Seq<u8>) -> i32
    recommends
        s.len() == 4,
{
    spec_u32_from_le_bytes(s) as i32
}

pub proof fn lemma_i64_le_bytes_round_trip(x: i64)
    ensures
        spec_i64_to_le_bytes(x).len() == 8,
        spec_i64_from_le_bytes(spec_i64_to_le_bytes(x)) == x,
{
    lemma_auto_spec_u64_to_from_le_bytes();
    assert(((x as u64) as i64) == x) by (bit_vector);
}

pub proof fn lemma_i32_le_bytes_round_trip(x: i32)
    ensures
        spec_i32_to_le_bytes(x).len() == 4,
        spec_i32_from_le_bytes(spec_i32_to_le_bytes(x)) == x,
{
    lemma_auto_spec_u32_to_from_le_bytes();
    let u = x as u32;
    assert(spec_u32_to_le_bytes(u).len() == 4);
    assert(spec_u32_from_le_bytes(spec_u32_to_le_bytes(u)) == u);
    assert(((x as u32) as i32) == x) by (bit_vector);
}

/// Reads the byte at `off`.
pub fn read_u8_at(buf: &Vec<u8>, off: usize) -> (r: u8)
    requires
        off < buf@.len(),
    ensures
        r == buf@[off as int],
{
    buf[off]
}

/// Reads a native-order (little-endian) 16-bit field at `off`.
pub fn read_u16_le_at(buf: &Vec<u8>, off: usize) -> (r: u16)
    requires
        off + 2 <= buf@.len(),
    ensures
        r == spec_u16_from_le_bytes(buf@.subrange(off as int, off + 2)),
{
    let n = buf.len();
    let s = slice_subrange(buf.as_slice(), off, off + 2);
    u16_from_le_bytes(s)
}

/// Reads a native-order (little-endian) 32-bit field at `off`.
pub fn read_u32_le_at(buf: &Vec<u8>, off: usize) -> (r: u32)
    requires
        off + 4 <= buf@.len(),
    ensures
        r == spec_u32_from_le_bytes(buf@.subrange(off as int, off + 4)),
{
    let n = buf.len();
    let s = slice_subrange(buf.as_slice(), off, off + 4);
    u32_from_le_bytes(s)
}

/// Reads a signed native-order 64-bit field at `off`.
pub fn read_i64_le_at(buf: &Vec<u8>, off: usize) -> (r: i64)
    requires
        off + 8 <= buf@.len(),
    ensures
        r == spec_i64_from_le_bytes(buf@.subrange(off as int, off + 8)),
{
    let n = buf.len();
    let s = slice_subrange(buf.as_slice(), off, off + 8);
    let x = u64_from_le_bytes(s);
    #[verifier::truncate] (x as i64)
}

/// Appends the little-endian bytes of a 16-bit value.
pub fn push_u16_le(out: &mut Vec<u8>, x: u16)
    ensures
        final(out)@ == old(out)@ + spec_u16_to_le_bytes(x),
{
    let mut b = u16_to_le_bytes(x);
    out.append(&mut b);
}

/// Appends the little-endian bytes of a 32-bit value.
pub fn push_u32_le(out: &mut Vec<u8>, x: u32)
    ensures
        final(out)@ == old(out)@ + spec_u32_to_le_bytes(x),
{
    let mut b = u32_to_le_bytes(x);
    out.append(&mut b);
}

/// Appends the little-endian bytes of a signed 32-bit value.
pub fn push_i32_le(out: &mut Vec<u8>, x: i32)
    ensures
        final(out)@ == old(out)@ + spec_i32_to_le_bytes(x),
{
    push_u32_le(out, x as u32);
}

/// Appends the little-endian bytes of a signed 64-bit value.
pub fn push_i64_le(out: &mut Vec<u8>, x: i64)
    ensures
        final(out)@ == old(out)@ + spec_i64_to_le_bytes(x),
{
    let mut b = u64_to_le_bytes(x as u64);
    out.append(&mut b);
}

/// Appends the big-endian bytes of a 16-bit value.
pub fn push_u16_be(out: &mut Vec<u8>, x: u16)
    ensures
        final(out)@ == old(out)@ + spec_u16_to_be_bytes(x),
{
    let hi = ((x >> 8) & 0xff) as u8;
    let lo = (x & 0xff) as u8;
    out.push(hi);
    out.push(lo);
    assert(out@ =~= old(out)@ + spec_u16_to_be_bytes(x));
}

/// Copies `buf[start..end]` into a fresh vector.
pub fn subvec(buf: &Vec<u8>, start: usize, end: usize) -> (r: Vec<u8>)
    requires
        start <= end,
        end <= buf@.len(),
    ensures
        r@ == buf@.subrange(start as int, end as int),
{
    let s = slice_subrange(buf.as_slice(), start, end);
    let mut r: Vec<u8> = Vec::new();
    r.extend_from_slice(s);
    assert(r@ =~= buf@.subrange(start as int, end as int));
    r
}

/// Writes `data` into `buf` at `off`, leaving every other byte unchanged.
pub fn write_bytes_at(buf: &mut Vec<u8>, off: usize, data: &Vec<u8>)
    requires
        off + data@.len() <= old(buf)@.len(),
    ensures
        final(buf)@.len() == old(buf)@.len(),
        final(buf)@.subrange(off as int, off + data@.len()) == data@,
        forall|i: int|
            0 <= i < old(buf)@.len() && !(off <= i < off + data@.len()) ==> final(buf)@[i] == old(
                buf,
            )@[i],
{
    let n = data.len();
    let m = buf.len();
    let mut j: usize = 0;
    while j < n
        invariant
            j <= n,
            n == data@.len(),
            off + n <= m,
            m == buf@.len(),
            buf@.len() == old(buf)@.len(),
            forall|i: int| 0 <= i < j ==> buf@[off + i] == data@[i],
            forall|i: int|
                0 <= i < old(buf)@.len() && !(off <= i < off + n) ==> buf@[i] == old(buf)@[i],
        decreases n - j,
    {
        buf[off + j] = data[j];
        j += 1;
    }
    assert(buf@.subrange(off as int, off + data@.len()) =~= data@);
}

/// Copies a byte vector.
pub fn clone_bytes(buf: &Vec<u8>) -> (r: Vec<u8>)
    ensures
        r@ == buf@,
{
    let mut r: Vec<u8> = Vec::new();
    r.extend_from_slice(buf.as_slice());
    assert(r@ =~= buf@);
    r
}

/// The payload of a one-byte integer field, or the error the format
/// prescribes when the width is wrong.
pub fn parse_u8(payload: &Vec<u8>) -> (r: Result<u8, DecodeError>)
    ensures
        match r {
            Ok(v) => payload@.len() == 1 && v == payload@[0],
            Err(e) => payload@.len() != 1 && e == DecodeError::UnparseableScalar,
        },
{
    if payload.len() == 1 {
        Ok(payload[0])
    } else {
        Err(DecodeError::UnparseableScalar)
    }
}

/// The value of a two-byte native-order integer field.
pub fn parse_u16(payload: &Vec<u8>) -> (r: Result<u16, DecodeError>)
    ensures
        match r {
            Ok(v) => payload@.len() == 2 && v == spec_u16_from_le_bytes(payload@),
            Err(e) => payload@.len() != 2 && e == DecodeError::UnparseableScalar,
        },
{
    if payload.len() == 2 {
        let v = read_u16_le_at(payload, 0);
        assert(payload@.subrange(0, 2) =~= payload@);
        Ok(v)
    } else {
        Err(DecodeError::UnparseableScalar)
    }
}

/// The value of a two-byte big-endian (network-order) integer field.
pub fn parse_u16_be(payload: &Vec<u8>) -> (r: Result<u16, DecodeError>)
    ensures
        match r {
            Ok(v) => payload@.len() == 2 && v == spec_u16_from_be_bytes(payload@),
            Err(e) => payload@.len() != 2 && e == DecodeError::UnparseableScalar,
        },
{
    if payload.len() == 2 {
        let b0 = payload[0];
        let b1 = payload[1];
        Ok(((b0 as u16) << 8u16) | (b1 as u16))
    } else {
        Err(DecodeError::UnparseableScalar)
    }
}

/// The value of a four-byte native-order integer field.
pub fn parse_u32(payload: &Vec<u8>) -> (r: Result<u32, DecodeError>)
    ensures
        match r {
            Ok(v) => payload@.len() == 4 && v == spec_u32_from_le_bytes(payload@),
            Err(e) => payload@.len() != 4 && e == DecodeError::UnparseableScalar,
        },
{
    if payload.len() == 4 {
        let v = read_u32_le_at(payload, 0);
        assert(payload@.subrange(0, 4) =~= payload@);
        Ok(v)
    } else {
        Err(DecodeError::UnparseableScalar)
    }
}

/// The value of a four-byte native-order signed integer field.
pub fn parse_i32(payload: &Vec<u8>) -> (r: Result<i32, DecodeError>)
    ensures
        match r {
            Ok(v) => payload@.len() == 4 && v == spec_i32_from_le_bytes(payload@),
            Err(e) => payload@.len() != 4 && e == DecodeError::UnparseableScalar,
        },
{
    match parse_u32(payload) {
        Ok(v) => Ok(v as i32),
        Err(e) => Err(e),
    }
}

} // verus!
