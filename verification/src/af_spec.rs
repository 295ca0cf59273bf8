//! ICMPv6 statistics block: a fixed 56-byte record of seven signed 64-bit
//! native-order counters at eight-byte strides. No TLV framing; the only
//! error is a buffer shorter than the record.

use vstd::prelude::*;

use crate::bytes::push_i64_le;
use crate::bytes::read_i64_le_at;
use crate::bytes::spec_i64_from_le_bytes;
use crate::bytes::spec_i64_to_le_bytes;
use crate::bytes::write_bytes_at;
use crate::error::DecodeError;

verus! {

pub const ICMP6_STATS_LEN: usize = 56;

/// The seven ICMPv6 counters a kernel reports per interface.
#[derive(Clone, Copy, Eq, PartialEq, Debug, Structural)]
pub struct Icmp6Stats {
    pub num: i64,
    pub in_msgs: i64,
    pub in_errors: i64,
    pub out_msgs: i64,
    pub out_errors: i64,
    pub csum_errors: i64,
    pub rate_limit_host: i64,
}

impl Default for Icmp6Stats {
    /// All counters start at zero.
    fn default() -> (r: Self)
        ensures
            r == (Icmp6Stats {
                num: 0,
                in_msgs: 0,
                in_errors: 0,
                out_msgs: 0,
                out_errors: 0,
                csum_errors: 0,
                rate_limit_host: 0,
            }),
    {
        Icmp6Stats {
            num: 0,
            in_msgs: 0,
            in_errors: 0,
            out_msgs: 0,
            out_errors: 0,
            csum_errors: 0,
            rate_limit_host: 0,
        }
    }
}

impl Icmp6Stats {
    /// The exact 56 wire bytes of this record.
    pub open spec fn wire_bytes(self) -> Seq<u8> {
        spec_i64_to_le_bytes(self.num) + spec_i64_to_le_bytes(self.in_msgs)
            + spec_i64_to_le_bytes(self.in_errors) + spec_i64_to_le_bytes(self.out_msgs)
            + spec_i64_to_le_bytes(self.out_errors) + spec_i64_to_le_bytes(self.csum_errors)
            + spec_i64_to_le_bytes(self.rate_limit_host)
    }

    /// What a buffer decodes to: the seven counters at their fixed
    /// offsets, or the length error when fewer than 56 bytes are there.
    pub open spec fn parse_spec(b: Seq<u8>) -> Result<Icmp6Stats, DecodeError> {
        if b.len() < ICMP6_STATS_LEN {
            Err(DecodeError::BufferTooShort)
        } else {
            Ok(
                Icmp6Stats {
                    num: spec_i64_from_le_bytes(b.subrange(0, 8)),
                    in_msgs: spec_i64_from_le_bytes(b.subrange(8, 16)),
                    in_errors: spec_i64_from_le_bytes(b.subrange(16, 24)),
                    out_msgs: spec_i64_from_le_bytes(b.subrange(24, 32)),
                    out_errors: spec_i64_from_le_bytes(b.subrange(32, 40)),
                    csum_errors: spec_i64_from_le_bytes(b.subrange(40, 48)),
                    rate_limit_host: spec_i64_from_le_bytes(b.subrange(48, 56)),
                },
            )
        }
    }

    /// Decodes the record at the start of a buffer.
    pub fn parse(buf: &Vec<u8>) -> (r: Result<Icmp6Stats, DecodeError>)
        ensures
            r == Icmp6Stats::parse_spec(buf@),
    {
        if buf.len() < ICMP6_STATS_LEN {
            return Err(DecodeError::BufferTooShort);
        }
        Ok(
            Icmp6Stats {
                num: read_i64_le_at(buf, 0),
                in_msgs: read_i64_le_at(buf, 8),
                in_errors: read_i64_le_at(buf, 16),
                out_msgs: read_i64_le_at(buf, 24),
                out_errors: read_i64_le_at(buf, 32),
                csum_errors: read_i64_le_at(buf, 40),
                rate_limit_host: read_i64_le_at(buf, 48),
            },
        )
    }

    /// The constant length of this record.
    pub fn buffer_len(&self) -> (r: usize)
        ensures
            r == ICMP6_STATS_LEN,
            r == self.wire_bytes().len(),
    {
        proof {
            vstd::bytes::lemma_auto_spec_u64_to_from_le_bytes();
        }
        ICMP6_STATS_LEN
    }

    /// Writes the record into the first 56 bytes of a buffer at least that
    /// long, leaving the rest unchanged.
    pub fn emit(&self, buffer: &mut Vec<u8>)
        requires
            old(buffer)@.len() >= ICMP6_STATS_LEN,
        ensures
            final(buffer)@.len() == old(buffer)@.len(),
            final(buffer)@.subrange(0, ICMP6_STATS_LEN as int) == self.wire_bytes(),
            forall|i: int|
                ICMP6_STATS_LEN <= i < old(buffer)@.len() ==> final(buffer)@[i] == old(buffer)@[i],
    {
        proof {
            vstd::bytes::lemma_auto_spec_u64_to_from_le_bytes();
        }
        let mut tmp: Vec<u8> = Vec::new();
        push_i64_le(&mut tmp, self.num);
        push_i64_le(&mut tmp, self.in_msgs);
        push_i64_le(&mut tmp, self.in_errors);
        push_i64_le(&mut tmp, self.out_msgs);
        push_i64_le(&mut tmp, self.out_errors);
        push_i64_le(&mut tmp, self.csum_errors);
        push_i64_le(&mut tmp, self.rate_limit_host);
        assert(tmp@ =~= self.wire_bytes());
        write_bytes_at(buffer, 0, &tmp);
    }
}

/// The record round-trips: emitting any statistics block and decoding the
/// bytes again yields the same seven counters.
pub proof fn lemma_icmp6_stats_round_trip(s: Icmp6Stats)
    ensures
        s.wire_bytes().len() == ICMP6_STATS_LEN,
        Icmp6Stats::parse_spec(s.wire_bytes()) == Ok::<Icmp6Stats, DecodeError>(s),
{
    vstd::bytes::lemma_auto_spec_u64_to_from_le_bytes();
    crate::bytes::lemma_i64_le_bytes_round_trip(s.num);
    crate::bytes::lemma_i64_le_bytes_round_trip(s.in_msgs);
    crate::bytes::lemma_i64_le_bytes_round_trip(s.in_errors);
    crate::bytes::lemma_i64_le_bytes_round_trip(s.out_msgs);
    crate::bytes::lemma_i64_le_bytes_round_trip(s.out_errors);
    crate::bytes::lemma_i64_le_bytes_round_trip(s.csum_errors);
    crate::bytes::lemma_i64_le_bytes_round_trip(s.rate_limit_host);
    let b = s.wire_bytes();
    assert(b.subrange(0, 8) =~= spec_i64_to_le_bytes(s.num));
    assert(b.subrange(8, 16) =~= spec_i64_to_le_bytes(s.in_msgs));
    assert(b.subrange(16, 24) =~= spec_i64_to_le_bytes(s.in_errors));
    assert(b.subrange(24, 32) =~= spec_i64_to_le_bytes(s.out_msgs));
    assert(b.subrange(32, 40) =~= spec_i64_to_le_bytes(s.out_errors));
    assert(b.subrange(40, 48) =~= spec_i64_to_le_bytes(s.csum_errors));
    assert(b.subrange(48, 56) =~= spec_i64_to_le_bytes(s.rate_limit_host));
}

} // verus!
