//! Neighbour messages: the fixed neighbour-discovery header followed by an
//! ordered TLV attribute sequence, parsed under the header's address
//! family. In the namespace this codec models the family selects no kind
//! codes yet, so every record stays opaque, in order and with duplicates
//! preserved.

use vstd::bytes::*;
use vstd::prelude::*;

use crate::bytes::clone_bytes;
use crate::bytes::push_u16_le;
use crate::bytes::push_u32_le;
use crate::bytes::read_u16_le_at;
use crate::bytes::read_u32_le_at;
use crate::bytes::subvec;
use crate::bytes::write_bytes_at;
use crate::error::DecodeError;
use crate::family::address_family_canonical;
use crate::family::address_family_code;
use crate::family::address_family_from_code;
use crate::family::AddressFamily;
use crate::nla::emit_nlas;
use crate::nla::nla_views;
use crate::nla::parse_nlas;
use crate::nla::parse_nlas_spec;
use crate::nla::stream_emit_bytes;
use crate::nla::stream_len;
use crate::nla::DefaultNla;
use crate::nla::NlaData;

verus! {

pub const NEIGHBOUR_HEADER_LEN: usize = 12;

/// Fixed twelve-byte header of a neighbour message: family code, three
/// reserved bytes, interface index, cache-entry state, flags and entry
/// kind.
#[derive(Debug, PartialEq, Eq, Clone, Copy, Structural)]
pub struct NeighbourHeader {
    pub family: AddressFamily,
    pub ifindex: u32,
    pub state: u16,
    pub flags: u8,
    pub kind: u8,
}

impl Default for NeighbourHeader {
    /// An unspecified-family header with every numeric field zero.
    fn default() -> (r: Self)
        ensures
            r == (NeighbourHeader {
                family: AddressFamily::Unspec,
                ifindex: 0,
                state: 0,
                flags: 0,
                kind: 0,
            }),
    {
        NeighbourHeader { family: AddressFamily::Unspec, ifindex: 0, state: 0, flags: 0, kind: 0 }
    }
}

impl NeighbourHeader {
    /// The exact twelve wire bytes of this header; reserved bytes write as
    /// zero.
    pub open spec fn wire_bytes(self) -> Seq<u8> {
        seq![address_family_code(self.family), 0u8, 0u8, 0u8] + spec_u32_to_le_bytes(self.ifindex)
            + spec_u16_to_le_bytes(self.state) + seq![self.flags, self.kind]
    }

    /// What a buffer decodes to: the fields at their fixed offsets, the
    /// reserved bytes ignored, or the length error below twelve bytes.
    pub open spec fn parse_spec(b: Seq<u8>) -> Result<NeighbourHeader, DecodeError> {
        if b.len() < NEIGHBOUR_HEADER_LEN {
            Err(DecodeError::BufferTooShort)
        } else {
            Ok(
                NeighbourHeader {
                    family: address_family_from_code(b[0]),
                    ifindex: spec_u32_from_le_bytes(b.subrange(4, 8)),
                    state: spec_u16_from_le_bytes(b.subrange(8, 10)),
                    flags: b[10],
                    kind: b[11],
                },
            )
        }
    }

    /// Decodes the header at the start of a buffer.
    pub fn parse(buf: &Vec<u8>) -> (r: Result<NeighbourHeader, DecodeError>)
        ensures
            r == NeighbourHeader::parse_spec(buf@),
    {
        if buf.len() < NEIGHBOUR_HEADER_LEN {
            return Err(DecodeError::BufferTooShort);
        }
        Ok(
            NeighbourHeader {
                family: AddressFamily::from(buf[0]),
                ifindex: read_u32_le_at(buf, 4),
                state: read_u16_le_at(buf, 8),
                flags: buf[10],
                kind: buf[11],
            },
        )
    }

    /// The constant length of this header.
    pub fn buffer_len(&self) -> (r: usize)
        ensures
            r == NEIGHBOUR_HEADER_LEN,
            r == self.wire_bytes().len(),
    {
        proof {
            lemma_auto_spec_u16_to_from_le_bytes();
            lemma_auto_spec_u32_to_from_le_bytes();
        }
        NEIGHBOUR_HEADER_LEN
    }

    /// Writes the header into the first twelve bytes of a buffer at least
    /// that long, leaving the rest unchanged.
    pub fn emit(&self, buffer: &mut Vec<u8>)
        requires
            old(buffer)@.len() >= NEIGHBOUR_HEADER_LEN,
        ensures
            final(buffer)@.len() == old(buffer)@.len(),
            final(buffer)@.subrange(0, NEIGHBOUR_HEADER_LEN as int) == self.wire_bytes(),
            forall|i: int|
                NEIGHBOUR_HEADER_LEN <= i < old(buffer)@.len() ==> final(buffer)@[i] == old(
                    buffer,
                )@[i],
    {
        let tmp = self.to_bytes();
        proof {
            lemma_auto_spec_u16_to_from_le_bytes();
            lemma_auto_spec_u32_to_from_le_bytes();
            assert(tmp@.len() == NEIGHBOUR_HEADER_LEN);
        }
        write_bytes_at(buffer, 0, &tmp);
    }

    /// The header's wire bytes as a fresh vector.
    fn to_bytes(&self) -> (r: Vec<u8>)
        ensures
            r@ == self.wire_bytes(),
    {
        let mut tmp: Vec<u8> = Vec::new();
        tmp.push(u8::from(self.family));
        tmp.push(0u8);
        tmp.push(0u8);
        tmp.push(0u8);
        push_u32_le(&mut tmp, self.ifindex);
        push_u16_le(&mut tmp, self.state);
        tmp.push(self.flags);
        tmp.push(self.kind);
        assert(tmp@ =~= self.wire_bytes());
        tmp
    }
}

/// Emitting a header whose family is in decoded form and parsing the bytes
/// again yields the same header.
pub proof fn lemma_neighbour_header_round_trip(h: NeighbourHeader)
    requires
        address_family_canonical(h.family),
    ensures
        h.wire_bytes().len() == NEIGHBOUR_HEADER_LEN,
        NeighbourHeader::parse_spec(h.wire_bytes()) == Ok::<NeighbourHeader, DecodeError>(h),
{
    lemma_auto_spec_u16_to_from_le_bytes();
    lemma_auto_spec_u32_to_from_le_bytes();
    let b = h.wire_bytes();
    assert(b[0] == address_family_code(h.family));
    assert(b.subrange(4, 8) =~= spec_u32_to_le_bytes(h.ifindex));
    assert(b.subrange(8, 10) =~= spec_u16_to_le_bytes(h.state));
    assert(b[10] == h.flags);
    assert(b[11] == h.kind);
}

/// One neighbour attribute. The analyzed namespace maps no kind code to a
/// typed variant yet, whatever the family context, so every record is
/// carried opaquely.
#[derive(Debug, PartialEq, Eq, Clone)]
pub enum NeighbourAttribute {
    Other(DefaultNla),
}

/// Mathematical form of a neighbour attribute.
pub enum NeighbourAttributeView {
    Other(NlaData),
}

impl View for NeighbourAttribute {
    type V = NeighbourAttributeView;

    open spec fn view(&self) -> NeighbourAttributeView {
        match self {
            NeighbourAttribute::Other(n) => NeighbourAttributeView::Other(n@),
        }
    }
}

impl NeighbourAttributeView {
    /// The record this attribute frames as.
    pub open spec fn record(self) -> NlaData {
        match self {
            NeighbourAttributeView::Other(n) => n,
        }
    }

    /// The value fits a record's 16-bit length field.
    pub open spec fn wf(self) -> bool {
        self.record().value.len() + 4 <= 0xffff
    }
}

/// What one record decodes to under the neighbour namespace and a family
/// context.
pub open spec fn parse_neighbour_attribute_spec(
    family: AddressFamily,
    r: NlaData,
) -> NeighbourAttributeView {
    NeighbourAttributeView::Other(r)
}

impl NeighbourAttribute {
    /// The wire kind code.
    pub fn kind(&self) -> (r: u16)
        ensures
            r == self@.record().kind,
    {
        match self {
            NeighbourAttribute::Other(n) => n.kind(),
        }
    }

    /// Exact unpadded length of the serialized value.
    pub fn value_len(&self) -> (r: usize)
        ensures
            r == self@.record().value.len(),
    {
        match self {
            NeighbourAttribute::Other(n) => n.value_len(),
        }
    }

    /// Writes exactly `value_len` bytes into a buffer of exactly that size.
    pub fn emit_value(&self, buffer: &mut Vec<u8>)
        requires
            old(buffer)@.len() == self@.record().value.len(),
        ensures
            final(buffer)@ == self@.record().value,
    {
        match self {
            NeighbourAttribute::Other(n) => n.emit_value(buffer),
        }
    }

    /// Decodes one raw record under the family context; every record is
    /// representable, so this never fails.
    pub fn parse_with_param(nla: &DefaultNla, family: AddressFamily) -> (r: Result<
        Self,
        DecodeError,
    >)
        ensures
            r is Ok,
            r->Ok_0@ == parse_neighbour_attribute_spec(family, nla@),
    {
        Ok(NeighbourAttribute::Other(DefaultNla { kind: nla.kind, value: clone_bytes(&nla.value) }))
    }
}

/// The attribute views of a parsed neighbour attribute list.
pub open spec fn neighbour_attr_views(vs: Seq<NeighbourAttribute>) -> Seq<NeighbourAttributeView> {
    vs.map_values(|v: NeighbourAttribute| v@)
}

/// The records an attribute list frames as.
pub open spec fn neighbour_records(vs: Seq<NeighbourAttributeView>) -> Seq<NlaData> {
    vs.map_values(|v: NeighbourAttributeView| v.record())
}

/// What an attribute section decodes to under a family context.
pub open spec fn parse_neighbour_attributes_spec(b: Seq<u8>, family: AddressFamily) -> Result<
    Seq<NeighbourAttributeView>,
    DecodeError,
> {
    match parse_nlas_spec(b) {
        Err(e) => Err(e),
        Ok(rs) => Ok(rs.map_values(|r: NlaData| parse_neighbour_attribute_spec(family, r))),
    }
}

/// Decodes the attribute section of a neighbour message.
pub fn parse_neighbour_attributes(data: &Vec<u8>, family: AddressFamily) -> (r: Result<
    Vec<NeighbourAttribute>,
    DecodeError,
>)
    ensures
        match r {
            Ok(v) => parse_neighbour_attributes_spec(data@, family) == Ok::<
                Seq<NeighbourAttributeView>,
                DecodeError,
            >(neighbour_attr_views(v@)),
            Err(e) => parse_neighbour_attributes_spec(data@, family) == Err::<
                Seq<NeighbourAttributeView>,
                DecodeError,
            >(e),
        },
{
    let nlas = match parse_nlas(data) {
        Ok(v) => v,
        Err(e) => {
            return Err(e);
        },
    };
    let ghost all = nla_views(nlas@);
    let n = nlas.len();
    let mut acc: Vec<NeighbourAttribute> = Vec::new();
    let mut i: usize = 0;
    while i < n
        invariant
            i <= n,
            n == nlas@.len(),
            all == nla_views(nlas@),
            parse_nlas_spec(data@) == Ok::<Seq<NlaData>, DecodeError>(all),
            neighbour_attr_views(acc@) =~= all.take(i as int).map_values(
                |r: NlaData| parse_neighbour_attribute_spec(family, r),
            ),
        decreases n - i,
    {
        let v = match NeighbourAttribute::parse_with_param(&nlas[i], family) {
            Ok(v) => v,
            Err(e) => {
                return Err(e);
            },
        };
        proof {
            assert(all[i as int] == nlas@[i as int]@);
            assert(neighbour_attr_views(acc@.push(v)) =~= neighbour_attr_views(acc@).push(v@));
            assert(all.take(i + 1) =~= all.take(i as int).push(all[i as int]));
            assert(all.take(i + 1).map_values(
                |r: NlaData| parse_neighbour_attribute_spec(family, r),
            ) =~= all.take(i as int).map_values(
                |r: NlaData| parse_neighbour_attribute_spec(family, r),
            ).push(parse_neighbour_attribute_spec(family, all[i as int])));
        }
        acc.push(v);
        i += 1;
    }
    proof {
        assert(all.take(n as int) =~= all);
    }
    Ok(acc)
}

/// A neighbour message: the fixed header, then the ordered attribute
/// sequence.
#[derive(Debug, PartialEq, Eq, Clone)]
pub struct NeighbourMessage {
    pub header: NeighbourHeader,
    pub attributes: Vec<NeighbourAttribute>,
}

/// Mathematical form of a neighbour message.
pub struct NeighbourMessageView {
    pub header: NeighbourHeader,
    pub attributes: Seq<NeighbourAttributeView>,
}

impl View for NeighbourMessage {
    type V = NeighbourMessageView;

    open spec fn view(&self) -> NeighbourMessageView {
        NeighbourMessageView {
            header: self.header,
            attributes: neighbour_attr_views(self.attributes@),
        }
    }
}

impl NeighbourMessageView {
    /// The exact wire bytes of the whole message.
    pub open spec fn wire_bytes(self) -> Seq<u8> {
        self.header.wire_bytes() + stream_emit_bytes(neighbour_records(self.attributes))
    }
}

/// What a whole buffer decodes to: the header, whose family then governs
/// the attribute section after it.
pub open spec fn parse_neighbour_message_spec(b: Seq<u8>) -> Result<
    NeighbourMessageView,
    DecodeError,
> {
    match NeighbourHeader::parse_spec(b) {
        Err(e) => Err(e),
        Ok(h) => match parse_neighbour_attributes_spec(
            b.skip(NEIGHBOUR_HEADER_LEN as int),
            h.family,
        ) {
            Err(e) => Err(e),
            Ok(attrs) => Ok(NeighbourMessageView { header: h, attributes: attrs }),
        },
    }
}

impl NeighbourMessage {
    /// Header length plus the padded span of every attribute.
    pub fn buffer_len(&self) -> (r: usize)
        requires
            NEIGHBOUR_HEADER_LEN + stream_len(
                neighbour_records(neighbour_attr_views(self.attributes@)),
            ) <= usize::MAX,
        ensures
            r == self@.wire_bytes().len(),
    {
        proof {
            lemma_auto_spec_u16_to_from_le_bytes();
            lemma_auto_spec_u32_to_from_le_bytes();
            crate::nla::lemma_stream_emit_len(
                neighbour_records(neighbour_attr_views(self.attributes@)),
            );
        }
        let recs = self.records();
        NEIGHBOUR_HEADER_LEN + crate::nla::nlas_buffer_len(&recs)
    }

    /// The attributes as raw records.
    fn records(&self) -> (r: Vec<DefaultNla>)
        ensures
            nla_views(r@) == neighbour_records(neighbour_attr_views(self.attributes@)),
    {
        let n = self.attributes.len();
        let mut recs: Vec<DefaultNla> = Vec::new();
        let mut i: usize = 0;
        while i < n
            invariant
                i <= n,
                n == self.attributes@.len(),
                nla_views(recs@) =~= neighbour_records(
                    neighbour_attr_views(self.attributes@),
                ).take(i as int),
            decreases n - i,
        {
            let rec = match &self.attributes[i] {
                NeighbourAttribute::Other(n) => DefaultNla {
                    kind: n.kind,
                    value: clone_bytes(&n.value),
                },
            };
            proof {
                assert(rec@ == self.attributes@[i as int]@.record());
                assert(neighbour_records(neighbour_attr_views(self.attributes@)).take(i + 1)
                    =~= neighbour_records(neighbour_attr_views(self.attributes@)).take(
                    i as int,
                ).push(self.attributes@[i as int]@.record()));
                assert(nla_views(recs@.push(rec)) =~= nla_views(recs@).push(rec@));
            }
            recs.push(rec);
            i += 1;
        }
        proof {
            assert(neighbour_records(neighbour_attr_views(self.attributes@)).take(n as int)
                =~= neighbour_records(neighbour_attr_views(self.attributes@)));
        }
        assert(nla_views(recs@) =~= neighbour_records(neighbour_attr_views(self.attributes@)));
        recs
    }

    /// Writes header then attributes at correctly padded offsets into a
    /// buffer at least `buffer_len` long, leaving the rest unchanged.
    pub fn emit(&self, buffer: &mut Vec<u8>)
        requires
            forall|i: int|
                0 <= i < self.attributes@.len() ==> (#[trigger] self.attributes@[i]@).wf(),
            old(buffer)@.len() >= self@.wire_bytes().len(),
        ensures
            final(buffer)@.len() == old(buffer)@.len(),
            final(buffer)@.subrange(0, self@.wire_bytes().len() as int) == self@.wire_bytes(),
            forall|i: int|
                self@.wire_bytes().len() <= i < old(buffer)@.len() ==> final(buffer)@[i] == old(
                    buffer,
                )@[i],
    {
        let mut tmp = self.header.to_bytes();
        let recs = self.records();
        proof {
            assert forall|j: int| 0 <= j < recs@.len() implies crate::nla::nla_wf(
                #[trigger] recs@[j]@,
            ) by {
                assert(nla_views(recs@)[j] == recs@[j]@);
                assert(recs@[j]@ == self.attributes@[j]@.record());
            }
        }
        let mut stream = emit_nlas(&recs);
        tmp.append(&mut stream);
        assert(tmp@ =~= self@.wire_bytes());
        write_bytes_at(buffer, 0, &tmp);
    }

    /// Decodes a whole neighbour message: the header, then the attribute
    /// section under the header's family.
    pub fn parse(buf: &Vec<u8>) -> (r: Result<NeighbourMessage, DecodeError>)
        ensures
            match r {
                Ok(m) => parse_neighbour_message_spec(buf@) == Ok::<
                    NeighbourMessageView,
                    DecodeError,
                >(m@),
                Err(e) => parse_neighbour_message_spec(buf@) == Err::<
                    NeighbourMessageView,
                    DecodeError,
                >(e),
            },
    {
        let header = match NeighbourHeader::parse(buf) {
            Ok(h) => h,
            Err(e) => {
                return Err(e);
            },
        };
        let address_family = header.family;
        let rest = subvec(buf, NEIGHBOUR_HEADER_LEN, buf.len());
        proof {
            assert(rest@ =~= buf@.skip(NEIGHBOUR_HEADER_LEN as int));
        }
        let attributes = match parse_neighbour_attributes(&rest, address_family) {
            Ok(v) => v,
            Err(e) => {
                return Err(e);
            },
        };
        Ok(NeighbourMessage { header, attributes })
    }
}

/// A whole well-formed neighbour message round-trips: emitting it and
/// decoding the bytes again yields the same header and attribute list.
pub proof fn lemma_neighbour_message_round_trip(m: NeighbourMessageView)
    requires
        address_family_canonical(m.header.family),
        forall|i: int| 0 <= i < m.attributes.len() ==> (#[trigger] m.attributes[i]).wf(),
    ensures
        parse_neighbour_message_spec(m.wire_bytes()) == Ok::<NeighbourMessageView, DecodeError>(m),
{
    lemma_neighbour_header_round_trip(m.header);
    let b = m.wire_bytes();
    let stream = stream_emit_bytes(neighbour_records(m.attributes));
    assert(b.subrange(0, NEIGHBOUR_HEADER_LEN as int) =~= m.header.wire_bytes());
    assert(b.len() >= NEIGHBOUR_HEADER_LEN);
    assert(NeighbourHeader::parse_spec(b) == NeighbourHeader::parse_spec(m.header.wire_bytes()))
        by {
        assert(b.subrange(4, 8) =~= m.header.wire_bytes().subrange(4, 8));
        assert(b.subrange(8, 10) =~= m.header.wire_bytes().subrange(8, 10));
        assert(b[0] == m.header.wire_bytes()[0]);
        assert(b[10] == m.header.wire_bytes()[10]);
        assert(b[11] == m.header.wire_bytes()[11]);
    }
    assert(b.skip(NEIGHBOUR_HEADER_LEN as int) =~= stream);
    assert forall|i: int| 0 <= i < neighbour_records(m.attributes).len() implies crate::nla::nla_wf(
        #[trigger] neighbour_records(m.attributes)[i],
    ) by {
        assert(neighbour_records(m.attributes)[i] == m.attributes[i].record());
    }
    crate::nla::lemma_parse_emit_stream(neighbour_records(m.attributes));
    let rs = neighbour_records(m.attributes);
    assert(rs.map_values(|r: NlaData| parse_neighbour_attribute_spec(m.header.family, r))
        =~= m.attributes);
}

} // verus!
