//! Address cache timing info: a fixed sixteen-byte record with four 32-bit
//! native-order counters at fixed offsets. No TLV framing, no optional
//! fields; the only error is a buffer shorter than the record.

use vstd::bytes::*;
use vstd::prelude::*;

use crate::bytes::push_u32_le;
use crate::bytes::read_u32_le_at;
use crate::bytes::write_bytes_at;
use crate::error::DecodeError;

verus! {

pub const ADDRESS_CACHE_INFO_LEN: usize = 16;

/// Preferred and valid lifetimes plus creation and update stamps of a
/// cached address.
#[derive(Debug, Clone, Copy, Eq, PartialEq, Structural)]
pub struct CacheInfo {
    pub ifa_preferred: u32,
    pub ifa_valid: u32,
    pub cstamp: u32,
    pub tstamp: u32,
}

impl Default for CacheInfo {
    /// All counters start at zero.
    fn default() -> (r: Self)
        ensures
            r == (CacheInfo { ifa_preferred: 0, ifa_valid: 0, cstamp: 0, tstamp: 0 }),
    {
        CacheInfo { ifa_preferred: 0, ifa_valid: 0, cstamp: 0, tstamp: 0 }
    }
}

impl CacheInfo {
    /// The exact sixteen wire bytes of this record.
    pub open spec fn wire_bytes(self) -> Seq<u8> {
        spec_u32_to_le_bytes(self.ifa_preferred) + spec_u32_to_le_bytes(self.ifa_valid)
            + spec_u32_to_le_bytes(self.cstamp) + spec_u32_to_le_bytes(self.tstamp)
    }

    /// What a buffer decodes to: the four fields at their fixed offsets,
    /// or the length error when fewer than sixteen bytes are there.
    pub open spec fn parse_spec(b: Seq<u8>) -> Result<CacheInfo, DecodeError> {
        if b.len() < ADDRESS_CACHE_INFO_LEN {
            Err(DecodeError::BufferTooShort)
        } else {
            Ok(
                CacheInfo {
                    ifa_preferred: spec_u32_from_le_bytes(b.subrange(0, 4)),
                    ifa_valid: spec_u32_from_le_bytes(b.subrange(4, 8)),
                    cstamp: spec_u32_from_le_bytes(b.subrange(8, 12)),
                    tstamp: spec_u32_from_le_bytes(b.subrange(12, 16)),
                },
            )
        }
    }

    /// Decodes the record at the start of a buffer.
    pub fn parse(buf: &Vec<u8>) -> (r: Result<CacheInfo, DecodeError>)
        ensures
            r == CacheInfo::parse_spec(buf@),
    {
        if buf.len() < ADDRESS_CACHE_INFO_LEN {
            return Err(DecodeError::BufferTooShort);
        }
        Ok(
            CacheInfo {
                ifa_preferred: read_u32_le_at(buf, 0),
                ifa_valid: read_u32_le_at(buf, 4),
                cstamp: read_u32_le_at(buf, 8),
                tstamp: read_u32_le_at(buf, 12),
            },
        )
    }

    /// The constant length of this record.
    pub fn buffer_len(&self) -> (r: usize)
        ensures
            r == ADDRESS_CACHE_INFO_LEN,
            r == self.wire_bytes().len(),
    {
        proof {
            lemma_auto_spec_u32_to_from_le_bytes();
        }
        ADDRESS_CACHE_INFO_LEN
    }

    /// Writes the record into the first sixteen bytes of a buffer at least
    /// that long, leaving the rest unchanged.
    pub fn emit(&self, buffer: &mut Vec<u8>)
        requires
            old(buffer)@.len() >= ADDRESS_CACHE_INFO_LEN,
        ensures
            final(buffer)@.len() == old(buffer)@.len(),
            final(buffer)@.subrange(0, ADDRESS_CACHE_INFO_LEN as int) == self.wire_bytes(),
            forall|i: int|
                ADDRESS_CACHE_INFO_LEN <= i < old(buffer)@.len() ==> final(buffer)@[i] == old(
                    buffer,
                )@[i],
    {
        proof {
            lemma_auto_spec_u32_to_from_le_bytes();
        }
        let mut tmp: Vec<u8> = Vec::new();
        push_u32_le(&mut tmp, self.ifa_preferred);
        push_u32_le(&mut tmp, self.ifa_valid);
        push_u32_le(&mut tmp, self.cstamp);
        push_u32_le(&mut tmp, self.tstamp);
        assert(tmp@ =~= self.wire_bytes());
        write_bytes_at(buffer, 0, &tmp);
    }
}

/// The record round-trips: emitting any cache info and decoding the bytes
/// again yields the same four counters.
pub proof fn lemma_cache_info_round_trip(c: CacheInfo)
    ensures
        c.wire_bytes().len() == ADDRESS_CACHE_INFO_LEN,
        CacheInfo::parse_spec(c.wire_bytes()) == Ok::<CacheInfo, DecodeError>(c),
{
    lemma_auto_spec_u32_to_from_le_bytes();
    let b = c.wire_bytes();
    assert(b.subrange(0, 4) =~= spec_u32_to_le_bytes(c.ifa_preferred));
    assert(b.subrange(4, 8) =~= spec_u32_to_le_bytes(c.ifa_valid));
    assert(b.subrange(8, 12) =~= spec_u32_to_le_bytes(c.cstamp));
    assert(b.subrange(12, 16) =~= spec_u32_to_le_bytes(c.tstamp));
}

} // verus!
