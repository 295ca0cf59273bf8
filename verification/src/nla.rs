//! The TLV record layer. A record on the wire is `length: u16` (native
//! order, covering the four header bytes and the value, never the padding),
//! `kind: u16`, then `length - 4` value bytes, then zero padding up to the
//! next multiple of four. A blob holds records back to back; the reader
//! stops at an empty remainder, fails on a nonzero remainder shorter than a
//! header, and fails on a record whose declared length runs past the end.

use vstd::bytes::*;
use vstd::prelude::*;

use crate::bytes::subvec;
use crate::bytes::read_u16_le_at;
use crate::error::DecodeError;

verus! {

/// Mathematical form of one attribute record: kind code and unpadded value.
pub struct NlaData {
    pub kind: u16,
    pub value: Seq<u8>,
}

/// The opaque attribute: a kind code and its raw value bytes, kept verbatim.
/// It is the lossless fallback for every kind code the active context does
/// not model.
#[derive(Debug, Clone, PartialEq, Eq)]
pub struct DefaultNla {
    pub kind: u16,
    pub value: Vec<u8>,
}

impl View for DefaultNla {
    type V = NlaData;

    open spec fn view(&self) -> NlaData {
        NlaData { kind: self.kind, value: self.value@ }
    }
}

/// The record views of a sequence of opaque attributes.
pub open spec fn nla_views(s: Seq<DefaultNla>) -> Seq<NlaData> {
    s.map_values(|n: DefaultNla| n@)
}

/// Bytes of padding after a span of `n` bytes, bringing the next record to a
/// four-byte boundary.
pub open spec fn pad_len(n: int) -> int {
    (4 - n % 4) % 4
}

/// `n` rounded up to a multiple of four.
pub open spec fn aligned_len(n: int) -> int {
    n + pad_len(n)
}

/// `n` zero bytes.
pub open spec fn zeros(n: int) -> Seq<u8> {
    Seq::new(n as nat, |i: int| 0u8)
}

/// A record can be framed: its length field, value plus the four header
/// bytes, fits the 16-bit length word. Every parsed record satisfies this.
pub open spec fn nla_wf(r: NlaData) -> bool {
    r.value.len() + 4 <= 0xffff
}

/// The exact wire bytes of one record, zero padding included.
pub open spec fn nla_emit_bytes(r: NlaData) -> Seq<u8> {
    spec_u16_to_le_bytes((r.value.len() + 4) as u16) + spec_u16_to_le_bytes(r.kind) + r.value
        + zeros(pad_len(r.value.len() + 4 as int))
}

/// The padded span one record occupies in a stream.
pub open spec fn nla_padded_len(r: NlaData) -> int {
    aligned_len(r.value.len() + 4 as int)
}

/// The exact wire bytes of a record sequence: each record padded, in order.
pub open spec fn stream_emit_bytes(rs: Seq<NlaData>) -> Seq<u8>
    decreases rs.len(),
{
    if rs.len() == 0 {
        Seq::empty()
    } else {
        nla_emit_bytes(rs[0]) + stream_emit_bytes(rs.drop_first())
    }
}

/// Total emitted length of a record sequence.
pub open spec fn stream_len(rs: Seq<NlaData>) -> int
    decreases rs.len(),
{
    if rs.len() == 0 {
        0
    } else {
        nla_padded_len(rs[0]) + stream_len(rs.drop_first())
    }
}

/// What cutting a blob into records yields: the ordered records, or the
/// first error. An empty remainder ends the stream; a nonzero remainder
/// shorter than a header, or a length below four, is malformed; a length
/// past the end of the blob leaves the buffer too short. A record's padding
/// may be truncated by the end of the blob.
pub open spec fn parse_nlas_spec(b: Seq<u8>) -> Result<Seq<NlaData>, DecodeError>
    decreases b.len(),
{
    if b.len() == 0 {
        Ok(Seq::empty())
    } else if b.len() < 4 {
        Err(DecodeError::MalformedLength)
    } else {
        let len = spec_u16_from_le_bytes(b.subrange(0, 2)) as int;
        if len < 4 {
            Err(DecodeError::MalformedLength)
        } else if len > b.len() {
            Err(DecodeError::BufferTooShort)
        } else {
            let rec = NlaData {
                kind: spec_u16_from_le_bytes(b.subrange(2, 4)),
                value: b.subrange(4, len),
            };
            let step = if aligned_len(len) <= b.len() {
                aligned_len(len)
            } else {
                b.len() as int
            };
            match parse_nlas_spec(b.subrange(step, b.len() as int)) {
                Ok(rest) => Ok(seq![rec] + rest),
                Err(e) => Err(e),
            }
        }
    }
}

impl DefaultNla {
    /// The record's kind code.
    pub fn kind(&self) -> (r: u16)
        ensures
            r == self@.kind,
    {
        self.kind
    }

    /// Exact unpadded length of the serialized value.
    pub fn value_len(&self) -> (r: usize)
        ensures
            r == self@.value.len(),
    {
        self.value.len()
    }

    /// Replays the stored value bytes into a buffer of exactly that size.
    pub fn emit_value(&self, buffer: &mut Vec<u8>)
        requires
            old(buffer)@.len() == self@.value.len(),
        ensures
            final(buffer)@ == self@.value,
    {
        buffer.clear();
        buffer.extend_from_slice(self.value.as_slice());
        assert(buffer@ =~= self@.value);
    }
}

/// Cuts a blob into its raw records.
pub fn parse_nlas(buf: &Vec<u8>) -> (r: Result<Vec<DefaultNla>, DecodeError>)
    ensures
        match r {
            Ok(v) => parse_nlas_spec(buf@) == Ok::<Seq<NlaData>, DecodeError>(nla_views(v@)),
            Err(e) => parse_nlas_spec(buf@) == Err::<Seq<NlaData>, DecodeError>(e),
        },
{
    let n = buf.len();
    let mut cursor: usize = 0;
    let mut acc: Vec<DefaultNla> = Vec::new();
    proof {
        assert(buf@.subrange(0, n as int) =~= buf@);
        match parse_nlas_spec(buf@) {
            Ok(rest) => {
                assert(nla_views(acc@) + rest =~= rest);
            },
            Err(_e) => {},
        }
    }
    loop
        invariant
            cursor <= n,
            n == buf@.len(),
            match parse_nlas_spec(buf@.subrange(cursor as int, n as int)) {
                Ok(rest) => parse_nlas_spec(buf@) == Ok::<Seq<NlaData>, DecodeError>(
                    nla_views(acc@) + rest,
                ),
                Err(e) => parse_nlas_spec(buf@) == Err::<Seq<NlaData>, DecodeError>(e),
            },
        decreases n - cursor,
    {
        let ghost b = buf@.subrange(cursor as int, n as int);
        if cursor == n {
            proof {
                assert(b.len() == 0);
                assert(nla_views(acc@) + parse_nlas_spec(b)->Ok_0 =~= nla_views(acc@));
            }
            return Ok(acc);
        }
        if n - cursor < 4 {
            assert(parse_nlas_spec(b) == Err::<Seq<NlaData>, DecodeError>(
                DecodeError::MalformedLength,
            ));
            return Err(DecodeError::MalformedLength);
        }
        let len_field = read_u16_le_at(buf, cursor) as usize;
        let kind = read_u16_le_at(buf, cursor + 2);
        proof {
            assert(b.subrange(0, 2) =~= buf@.subrange(cursor as int, cursor + 2));
            assert(b.subrange(2, 4) =~= buf@.subrange(cursor + 2, cursor + 4));
        }
        if len_field < 4 {
            return Err(DecodeError::MalformedLength);
        }
        if len_field > n - cursor {
            return Err(DecodeError::BufferTooShort);
        }
        let value = subvec(buf, cursor + 4, cursor + len_field);
        let ghost len = len_field as int;
        proof {
            assert(b.subrange(4, len) =~= buf@.subrange(cursor + 4, cursor + len));
        }
        let rec = DefaultNla { kind, value };
        let pad = (4 - (len_field % 4)) % 4;
        let padded = len_field + pad;
        let next = if padded <= n - cursor {
            cursor + padded
        } else {
            n
        };
        proof {
            assert(padded == aligned_len(len));
            let step = if aligned_len(len) <= b.len() {
                aligned_len(len)
            } else {
                b.len() as int
            };
            assert(next == cursor + step);
            assert(b.subrange(step, b.len() as int) =~= buf@.subrange(next as int, n as int));
            assert(nla_views(acc@.push(rec)) =~= nla_views(acc@) + seq![rec@]);
            match parse_nlas_spec(buf@.subrange(next as int, n as int)) {
                Ok(rest) => {
                    assert(parse_nlas_spec(b) == Ok::<Seq<NlaData>, DecodeError>(
                        seq![rec@] + rest,
                    ));
                    assert(nla_views(acc@.push(rec)) + rest =~= nla_views(acc@) + (
                    seq![rec@] + rest));
                },
                Err(_e) => {},
            }
        }
        acc.push(rec);
        cursor = next;
    }
}

/// Appends one record's exact wire bytes: header, value, zero padding.
pub fn emit_nla_into(out: &mut Vec<u8>, nla: &DefaultNla)
    requires
        nla_wf(nla@),
    ensures
        final(out)@ == old(out)@ + nla_emit_bytes(nla@),
{
    let total = nla.value.len() + 4;
    crate::bytes::push_u16_le(out, total as u16);
    crate::bytes::push_u16_le(out, nla.kind);
    out.extend_from_slice(nla.value.as_slice());
    let pad = (4 - (total % 4)) % 4;
    let ghost before_pad = out@;
    let mut i: usize = 0;
    while i < pad
        invariant
            i <= pad,
            out@ == before_pad + zeros(i as int),
        decreases pad - i,
    {
        out.push(0u8);
        assert(out@ =~= before_pad + zeros(i + 1));
        i += 1;
    }
    proof {
        assert(pad == pad_len(total as int));
        assert(out@ =~= old(out)@ + nla_emit_bytes(nla@));
    }
}

/// The exact wire bytes of an ordered attribute list.
pub fn emit_nlas(attrs: &Vec<DefaultNla>) -> (out: Vec<u8>)
    requires
        forall|i: int| 0 <= i < attrs@.len() ==> nla_wf(#[trigger] attrs@[i]@),
    ensures
        out@ == stream_emit_bytes(nla_views(attrs@)),
{
    let mut out: Vec<u8> = Vec::new();
    let n = attrs.len();
    let mut i: usize = 0;
    while i < n
        invariant
            i <= n,
            n == attrs@.len(),
            forall|j: int| 0 <= j < attrs@.len() ==> nla_wf(#[trigger] attrs@[j]@),
            out@ == stream_emit_bytes(nla_views(attrs@).take(i as int)),
        decreases n - i,
    {
        proof {
            lemma_stream_emit_push(
                nla_views(attrs@).take(i as int),
                attrs@[i as int]@,
            );
            assert(nla_views(attrs@).take(i + 1) =~= nla_views(attrs@).take(i as int).push(
                attrs@[i as int]@,
            ));
        }
        emit_nla_into(&mut out, &attrs[i]);
        i += 1;
    }
    proof {
        assert(nla_views(attrs@).take(n as int) =~= nla_views(attrs@));
    }
    out
}

/// Total buffer length an attribute list needs: each record's padded span.
pub fn nlas_buffer_len(attrs: &Vec<DefaultNla>) -> (r: usize)
    requires
        stream_len(nla_views(attrs@)) <= usize::MAX,
    ensures
        r == stream_len(nla_views(attrs@)),
{
    let n = attrs.len();
    let mut total: usize = 0;
    let mut i: usize = 0;
    while i < n
        invariant
            i <= n,
            n == attrs@.len(),
            stream_len(nla_views(attrs@)) <= usize::MAX,
            total == stream_len(nla_views(attrs@).take(i as int)),
        decreases n - i,
    {
        proof {
            lemma_stream_len_push(nla_views(attrs@).take(i as int), attrs@[i as int]@);
            assert(nla_views(attrs@).take(i + 1) =~= nla_views(attrs@).take(i as int).push(
                attrs@[i as int]@,
            ));
            lemma_stream_len_take_bound(nla_views(attrs@), i + 1);
        }
        let vlen = attrs[i].value.len();
        let total_len = vlen + 4;
        let pad = (4 - (total_len % 4)) % 4;
        total = total + total_len + pad;
        i += 1;
    }
    proof {
        assert(nla_views(attrs@).take(n as int) =~= nla_views(attrs@));
    }
    total
}

/// Emitting a sequence extended by one record appends that record's bytes.
pub proof fn lemma_stream_emit_push(rs: Seq<NlaData>, r: NlaData)
    ensures
        stream_emit_bytes(rs.push(r)) == stream_emit_bytes(rs) + nla_emit_bytes(r),
    decreases rs.len(),
{
    if rs.len() == 0 {
        assert(rs.push(r).drop_first() =~= Seq::<NlaData>::empty());
        assert(rs.push(r)[0] == r);
        assert(rs.push(r).len() == 1);
        assert(stream_emit_bytes(rs.push(r)) == nla_emit_bytes(r) + stream_emit_bytes(
            rs.push(r).drop_first(),
        ));
        assert(stream_emit_bytes(rs.push(r).drop_first()) == Seq::<u8>::empty());
        assert(stream_emit_bytes(rs) == Seq::<u8>::empty());
        assert(nla_emit_bytes(r) + Seq::<u8>::empty() =~= Seq::<u8>::empty() + nla_emit_bytes(r));
    } else {
        lemma_stream_emit_push(rs.drop_first(), r);
        assert(rs.push(r).drop_first() =~= rs.drop_first().push(r));
        assert(rs.push(r)[0] == rs[0]);
        assert(stream_emit_bytes(rs.push(r)) == nla_emit_bytes(rs[0]) + stream_emit_bytes(
            rs.drop_first().push(r),
        ));
        assert(stream_emit_bytes(rs) == nla_emit_bytes(rs[0]) + stream_emit_bytes(
            rs.drop_first(),
        ));
        assert(nla_emit_bytes(rs[0]) + (stream_emit_bytes(rs.drop_first()) + nla_emit_bytes(r))
            =~= (nla_emit_bytes(rs[0]) + stream_emit_bytes(rs.drop_first())) + nla_emit_bytes(r));
    }
}

/// The emitted length of a sequence extended by one record.
pub proof fn lemma_stream_len_push(rs: Seq<NlaData>, r: NlaData)
    ensures
        stream_len(rs.push(r)) == stream_len(rs) + nla_padded_len(r),
    decreases rs.len(),
{
    if rs.len() == 0 {
        assert(rs.push(r).drop_first() =~= Seq::<NlaData>::empty());
        assert(rs.push(r)[0] == r);
        assert(stream_len(rs.push(r)) == nla_padded_len(r) + stream_len(
            rs.push(r).drop_first(),
        ));
        assert(stream_len(rs.push(r).drop_first()) == 0);
        assert(stream_len(rs) == 0);
    } else {
        lemma_stream_len_push(rs.drop_first(), r);
        assert(rs.push(r).drop_first() =~= rs.drop_first().push(r));
        assert(rs.push(r)[0] == rs[0]);
        assert(stream_len(rs.push(r)) == nla_padded_len(rs[0]) + stream_len(
            rs.drop_first().push(r),
        ));
        assert(stream_len(rs) == nla_padded_len(rs[0]) + stream_len(rs.drop_first()));
    }
}

/// A prefix of a sequence never needs more bytes than the whole.
pub proof fn lemma_stream_len_take_bound(rs: Seq<NlaData>, i: int)
    requires
        0 <= i <= rs.len(),
    ensures
        stream_len(rs.take(i)) <= stream_len(rs),
        stream_len(rs.take(i)) >= 0,
    decreases rs.len(),
{
    if rs.len() == 0 {
        assert(rs.take(i) =~= rs);
    } else if i == 0 {
        assert(rs.take(0) =~= Seq::<NlaData>::empty());
        lemma_stream_len_take_bound(rs.drop_first(), 0);
    } else {
        lemma_stream_len_take_bound(rs.drop_first(), i - 1);
        assert(rs.take(i)[0] == rs[0]);
        assert(rs.take(i).drop_first() =~= rs.drop_first().take(i - 1));
    }
}

/// The emitted bytes of a record sequence span exactly its padded length.
pub proof fn lemma_stream_emit_len(rs: Seq<NlaData>)
    ensures
        stream_emit_bytes(rs).len() == stream_len(rs),
        stream_len(rs) >= 0,
    decreases rs.len(),
{
    lemma_auto_spec_u16_to_from_le_bytes();
    if rs.len() == 0 {
    } else {
        lemma_stream_emit_len(rs.drop_first());
    }
}

/// Emitting then parsing a well-formed record sequence returns it exactly.
pub proof fn lemma_parse_emit_stream(rs: Seq<NlaData>)
    requires
        forall|i: int| 0 <= i < rs.len() ==> nla_wf(#[trigger] rs[i]),
    ensures
        parse_nlas_spec(stream_emit_bytes(rs)) == Ok::<Seq<NlaData>, DecodeError>(rs),
    decreases rs.len(),
{
    lemma_auto_spec_u16_to_from_le_bytes();
    if rs.len() == 0 {
        assert(stream_emit_bytes(rs).len() == 0);
        assert(parse_nlas_spec(stream_emit_bytes(rs)) == Ok::<Seq<NlaData>, DecodeError>(
            Seq::empty(),
        ));
        assert(rs =~= Seq::<NlaData>::empty());
    } else {
        let r0 = rs[0];
        let rest = rs.drop_first();
        let h = nla_emit_bytes(r0);
        let b = stream_emit_bytes(rs);
        let len = r0.value.len() + 4;
        assert(h.len() == aligned_len(len as int));
        assert(b =~= h + stream_emit_bytes(rest));
        assert(b.subrange(0, 2) =~= spec_u16_to_le_bytes(len as u16));
        assert(b.subrange(2, 4) =~= spec_u16_to_le_bytes(r0.kind));
        assert(spec_u16_from_le_bytes(b.subrange(0, 2)) == len as u16);
        assert(len as u16 == len);
        assert(b.subrange(4, len as int) =~= r0.value);
        assert(aligned_len(len as int) <= b.len());
        assert(b.subrange(aligned_len(len as int), b.len() as int) =~= stream_emit_bytes(rest));
        assert(forall|i: int| 0 <= i < rest.len() ==> nla_wf(#[trigger] rest[i]));
        lemma_parse_emit_stream(rest);
        assert(parse_nlas_spec(b) == Ok::<Seq<NlaData>, DecodeError>(
            seq![NlaData { kind: r0.kind, value: r0.value }] + rest,
        ));
        assert(seq![NlaData { kind: r0.kind, value: r0.value }] + rest =~= rs);
    }
}

/// Every record a successful parse yields lies inside the blob: its value
/// plus header fits the blob's length, and a blob of length `L` holds at
/// most `L / 4` records.
pub proof fn lemma_parse_bounds(b: Seq<u8>)
    ensures
        parse_nlas_spec(b) is Ok ==> {
            let rs = parse_nlas_spec(b)->Ok_0;
            &&& 4 * rs.len() <= b.len()
            &&& forall|i: int|
                0 <= i < rs.len() ==> (#[trigger] rs[i]).value.len() + 4 <= b.len() && nla_wf(
                    rs[i],
                )
        },
    decreases b.len(),
{
    if b.len() == 0 {
    } else if b.len() < 4 {
    } else {
        let len = spec_u16_from_le_bytes(b.subrange(0, 2)) as int;
        if 4 <= len <= b.len() {
            let step = if aligned_len(len) <= b.len() {
                aligned_len(len)
            } else {
                b.len() as int
            };
            let tail = b.subrange(step, b.len() as int);
            lemma_parse_bounds(tail);
            if parse_nlas_spec(b) is Ok {
                let rs = parse_nlas_spec(b)->Ok_0;
                let rest = parse_nlas_spec(tail)->Ok_0;
                assert(rs == seq![
                    NlaData { kind: spec_u16_from_le_bytes(b.subrange(2, 4)), value: b.subrange(4, len) },
                ] + rest);
                assert(rs[0].value.len() + 4 == len);
                assert(4 * rs.len() == 4 + 4 * rest.len());
                assert(forall|i: int| 1 <= i < rs.len() ==> rs[i] == rest[i - 1]);
            }
        }
    }
}

/// A blob whose first record claims more bytes than remain is a decode
/// failure for the whole stream, never a truncated record.
pub proof fn lemma_parse_overlong_record(b: Seq<u8>)
    requires
        b.len() >= 4,
        spec_u16_from_le_bytes(b.subrange(0, 2)) > b.len(),
    ensures
        parse_nlas_spec(b) == Err::<Seq<NlaData>, DecodeError>(DecodeError::BufferTooShort),
{
}

/// Parsing then emitting reproduces the blob byte for byte wherever the
/// blob's padding is zero and fully present.
pub open spec fn stream_zero_padded(b: Seq<u8>) -> bool
    decreases b.len(),
{
    if b.len() < 4 {
        true
    } else {
        let len = spec_u16_from_le_bytes(b.subrange(0, 2)) as int;
        if len < 4 || len > b.len() {
            true
        } else {
            &&& aligned_len(len) <= b.len()
            &&& b.subrange(len, aligned_len(len)) == zeros(pad_len(len))
            &&& stream_zero_padded(b.subrange(aligned_len(len), b.len() as int))
        }
    }
}

/// The opaque round trip: any blob that parses, whose padding is zero and
/// complete, is reproduced byte for byte by emitting the parsed records.
pub proof fn lemma_emit_parse_stream(b: Seq<u8>)
    requires
        parse_nlas_spec(b) is Ok,
        stream_zero_padded(b),
    ensures
        stream_emit_bytes(parse_nlas_spec(b)->Ok_0) == b,
    decreases b.len(),
{
    lemma_auto_spec_u16_to_from_le_bytes();
    if b.len() == 0 {
        assert(stream_emit_bytes(parse_nlas_spec(b)->Ok_0) =~= b);
    } else {
        let len = spec_u16_from_le_bytes(b.subrange(0, 2)) as int;
        let kind = spec_u16_from_le_bytes(b.subrange(2, 4));
        let rec = NlaData { kind, value: b.subrange(4, len) };
        let tail = b.subrange(aligned_len(len), b.len() as int);
        lemma_emit_parse_stream(tail);
        let rs = parse_nlas_spec(b)->Ok_0;
        assert(rs == seq![rec] + parse_nlas_spec(tail)->Ok_0);
        assert(rs[0] == rec);
        assert(rs.drop_first() =~= parse_nlas_spec(tail)->Ok_0);
        assert(spec_u16_to_le_bytes((rec.value.len() + 4) as u16) =~= b.subrange(0, 2));
        assert(spec_u16_to_le_bytes(rec.kind) =~= b.subrange(2, 4));
        assert(nla_emit_bytes(rec) =~= b.subrange(0, aligned_len(len)));
        assert(stream_emit_bytes(rs) =~= b);
    }
}

/// Each emitted record is followed by exactly `(4 - n % 4) % 4` zero bytes,
/// `n` its header-plus-value length, and occupies its padded span.
pub proof fn lemma_emit_padding(r: NlaData)
    ensures
        nla_emit_bytes(r).len() == nla_padded_len(r),
        forall|i: int|
            4 + r.value.len() <= i < nla_emit_bytes(r).len() ==> nla_emit_bytes(r)[i] == 0,
        nla_emit_bytes(r).len() - (4 + r.value.len()) == pad_len(r.value.len() + 4 as int),
{
    lemma_auto_spec_u16_to_from_le_bytes();
}

} // verus!
