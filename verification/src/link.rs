//! Link messages: the fixed interface-info header followed by an ordered
//! TLV attribute sequence. The header carries the address-family context
//! that attribute parsing is threaded with; in the namespace this codec
//! models the family selects no kind codes yet, so every record stays
//! opaque, in order and with duplicates preserved.

use vstd::bytes::*;
use vstd::prelude::*;

use crate::bytes::clone_bytes;
use crate::bytes::push_u16_le;
use crate::bytes::push_u32_le;
use crate::bytes::read_u16_le_at;
use crate::bytes::read_u32_le_at;
use crate::bytes::subvec;
use crate::bytes::write_bytes_at;
use crate::error::DecodeError;
use crate::family::address_family_canonical;
use crate::family::address_family_code;
use crate::family::address_family_from_code;
use crate::family::AddressFamily;
use crate::nla::emit_nlas;
use crate::nla::nla_views;
use crate::nla::parse_nlas;
use crate::nla::parse_nlas_spec;
use crate::nla::stream_emit_bytes;
use crate::nla::stream_len;
use crate::nla::DefaultNla;
use crate::nla::NlaData;

verus! {

pub const LINK_HEADER_LEN: usize = 16;

/// Fixed sixteen-byte header of a link message: family code, one reserved
/// byte, link-layer type, interface index, flags and change mask.
#[derive(Debug, PartialEq, Eq, Clone, Copy, Structural)]
pub struct LinkHeader {
    pub interface_family: AddressFamily,
    pub link_layer_type: u16,
    pub index: u32,
    pub flags: u32,
    pub change_mask: u32,
}

impl Default for LinkHeader {
    /// An unspecified-family header with every numeric field zero.
    fn default() -> (r: Self)
        ensures
            r == (LinkHeader {
                interface_family: AddressFamily::Unspec,
                link_layer_type: 0,
                index: 0,
                flags: 0,
                change_mask: 0,
            }),
    {
        LinkHeader {
            interface_family: AddressFamily::Unspec,
            link_layer_type: 0,
            index: 0,
            flags: 0,
            change_mask: 0,
        }
    }
}

impl LinkHeader {
    /// The exact sixteen wire bytes of this header; the reserved byte
    /// writes as zero.
    pub open spec fn wire_bytes(self) -> Seq<u8> {
        seq![address_family_code(self.interface_family), 0u8] + spec_u16_to_le_bytes(
            self.link_layer_type,
        ) + spec_u32_to_le_bytes(self.index) + spec_u32_to_le_bytes(self.flags)
            + spec_u32_to_le_bytes(self.change_mask)
    }

    /// What a buffer decodes to: the fields at their fixed offsets, the
    /// reserved byte ignored, or the length error below sixteen bytes.
    pub open spec fn parse_spec(b: Seq<u8>) -> Result<LinkHeader, DecodeError> {
        if b.len() < LINK_HEADER_LEN {
            Err(DecodeError::BufferTooShort)
        } else {
            Ok(
                LinkHeader {
                    interface_family: address_family_from_code(b[0]),
                    link_layer_type: spec_u16_from_le_bytes(b.subrange(2, 4)),
                    index: spec_u32_from_le_bytes(b.subrange(4, 8)),
                    flags: spec_u32_from_le_bytes(b.subrange(8, 12)),
                    change_mask: spec_u32_from_le_bytes(b.subrange(12, 16)),
                },
            )
        }
    }

    /// Decodes the header at the start of a buffer.
    pub fn parse(buf: &Vec<u8>) -> (r: Result<LinkHeader, DecodeError>)
        ensures
            r == LinkHeader::parse_spec(buf@),
    {
        if buf.len() < LINK_HEADER_LEN {
            return Err(DecodeError::BufferTooShort);
        }
        Ok(
            LinkHeader {
                interface_family: AddressFamily::from(buf[0]),
                link_layer_type: read_u16_le_at(buf, 2),
                index: read_u32_le_at(buf, 4),
                flags: read_u32_le_at(buf, 8),
                change_mask: read_u32_le_at(buf, 12),
            },
        )
    }

    /// The constant length of this header.
    pub fn buffer_len(&self) -> (r: usize)
        ensures
            r == LINK_HEADER_LEN,
            r == self.wire_bytes().len(),
    {
        proof {
            lemma_auto_spec_u16_to_from_le_bytes();
            lemma_auto_spec_u32_to_from_le_bytes();
        }
        LINK_HEADER_LEN
    }

    /// Writes the header into the first sixteen bytes of a buffer at least
    /// that long, leaving the rest unchanged.
    pub fn emit(&self, buffer: &mut Vec<u8>)
        requires
            old(buffer)@.len() >= LINK_HEADER_LEN,
        ensures
            final(buffer)@.len() == old(buffer)@.len(),
            final(buffer)@.subrange(0, LINK_HEADER_LEN as int) == self.wire_bytes(),
            forall|i: int|
                LINK_HEADER_LEN <= i < old(buffer)@.len() ==> final(buffer)@[i] == old(buffer)@[i],
    {
        let tmp = self.to_bytes();
        proof {
            lemma_auto_spec_u16_to_from_le_bytes();
            lemma_auto_spec_u32_to_from_le_bytes();
            assert(tmp@.len() == LINK_HEADER_LEN);
        }
        write_bytes_at(buffer, 0, &tmp);
    }

    /// The header's wire bytes as a fresh vector.
    fn to_bytes(&self) -> (r: Vec<u8>)
        ensures
            r@ == self.wire_bytes(),
    {
        let mut tmp: Vec<u8> = Vec::new();
        tmp.push(u8::from(self.interface_family));
        tmp.push(0u8);
        push_u16_le(&mut tmp, self.link_layer_type);
        push_u32_le(&mut tmp, self.index);
        push_u32_le(&mut tmp, self.flags);
        push_u32_le(&mut tmp, self.change_mask);
        assert(tmp@ =~= self.wire_bytes());
        tmp
    }
}

/// Emitting a header whose family is in decoded form and parsing the bytes
/// again yields the same header.
pub proof fn lemma_link_header_round_trip(h: LinkHeader)
    requires
        address_family_canonical(h.interface_family),
    ensures
        h.wire_bytes().len() == LINK_HEADER_LEN,
        LinkHeader::parse_spec(h.wire_bytes()) == Ok::<LinkHeader, DecodeError>(h),
{
    lemma_auto_spec_u16_to_from_le_bytes();
    lemma_auto_spec_u32_to_from_le_bytes();
    let b = h.wire_bytes();
    assert(b[0] == address_family_code(h.interface_family));
    assert(b.subrange(2, 4) =~= spec_u16_to_le_bytes(h.link_layer_type));
    assert(b.subrange(4, 8) =~= spec_u32_to_le_bytes(h.index));
    assert(b.subrange(8, 12) =~= spec_u32_to_le_bytes(h.flags));
    assert(b.subrange(12, 16) =~= spec_u32_to_le_bytes(h.change_mask));
}

/// One link attribute. The analyzed namespace maps no kind code to a typed
/// variant yet, whatever the family context, so every record is carried
/// opaquely; the context is threaded for the nested namespaces that need
/// it.
#[derive(Debug, PartialEq, Eq, Clone)]
pub enum LinkAttribute {
    Other(DefaultNla),
}

/// Mathematical form of a link attribute.
pub enum LinkAttributeView {
    Other(NlaData),
}

impl View for LinkAttribute {
    type V = LinkAttributeView;

    open spec fn view(&self) -> LinkAttributeView {
        match self {
            LinkAttribute::Other(n) => LinkAttributeView::Other(n@),
        }
    }
}

impl LinkAttributeView {
    /// The record this attribute frames as.
    pub open spec fn record(self) -> NlaData {
        match self {
            LinkAttributeView::Other(n) => n,
        }
    }

    /// The value fits a record's 16-bit length field.
    pub open spec fn wf(self) -> bool {
        self.record().value.len() + 4 <= 0xffff
    }
}

/// What one record decodes to under the link namespace and a family
/// context.
pub open spec fn parse_link_attribute_spec(family: AddressFamily, r: NlaData) -> LinkAttributeView {
    LinkAttributeView::Other(r)
}

impl LinkAttribute {
    /// The wire kind code.
    pub fn kind(&self) -> (r: u16)
        ensures
            r == self@.record().kind,
    {
        match self {
            LinkAttribute::Other(n) => n.kind(),
        }
    }

    /// Exact unpadded length of the serialized value.
    pub fn value_len(&self) -> (r: usize)
        ensures
            r == self@.record().value.len(),
    {
        match self {
            LinkAttribute::Other(n) => n.value_len(),
        }
    }

    /// Writes exactly `value_len` bytes into a buffer of exactly that size.
    pub fn emit_value(&self, buffer: &mut Vec<u8>)
        requires
            old(buffer)@.len() == self@.record().value.len(),
        ensures
            final(buffer)@ == self@.record().value,
    {
        match self {
            LinkAttribute::Other(n) => n.emit_value(buffer),
        }
    }

    /// Decodes one raw record under the family context; every record is
    /// representable, so this never fails.
    pub fn parse_with_param(nla: &DefaultNla, family: AddressFamily) -> (r: Result<
        Self,
        DecodeError,
    >)
        ensures
            r is Ok,
            r->Ok_0@ == parse_link_attribute_spec(family, nla@),
    {
        Ok(LinkAttribute::Other(DefaultNla { kind: nla.kind, value: clone_bytes(&nla.value) }))
    }
}

/// The attribute views of a parsed link attribute list.
pub open spec fn link_attr_views(vs: Seq<LinkAttribute>) -> Seq<LinkAttributeView> {
    vs.map_values(|v: LinkAttribute| v@)
}

/// The records an attribute list frames as.
pub open spec fn link_records(vs: Seq<LinkAttributeView>) -> Seq<NlaData> {
    vs.map_values(|v: LinkAttributeView| v.record())
}

/// What an attribute section decodes to under a family context: each
/// record in order, or the first framing error.
pub open spec fn parse_link_attributes_spec(b: Seq<u8>, family: AddressFamily) -> Result<
    Seq<LinkAttributeView>,
    DecodeError,
> {
    match parse_nlas_spec(b) {
        Err(e) => Err(e),
        Ok(rs) => Ok(rs.map_values(|r: NlaData| parse_link_attribute_spec(family, r))),
    }
}

/// Decodes the attribute section of a link message.
pub fn parse_link_attributes(data: &Vec<u8>, family: AddressFamily) -> (r: Result<
    Vec<LinkAttribute>,
    DecodeError,
>)
    ensures
        match r {
            Ok(v) => parse_link_attributes_spec(data@, family) == Ok::<
                Seq<LinkAttributeView>,
                DecodeError,
            >(link_attr_views(v@)),
            Err(e) => parse_link_attributes_spec(data@, family) == Err::<
                Seq<LinkAttributeView>,
                DecodeError,
            >(e),
        },
{
    let nlas = match parse_nlas(data) {
        Ok(v) => v,
        Err(e) => {
            return Err(e);
        },
    };
    let ghost all = nla_views(nlas@);
    let n = nlas.len();
    let mut acc: Vec<LinkAttribute> = Vec::new();
    let mut i: usize = 0;
    while i < n
        invariant
            i <= n,
            n == nlas@.len(),
            all == nla_views(nlas@),
            parse_nlas_spec(data@) == Ok::<Seq<NlaData>, DecodeError>(all),
            link_attr_views(acc@) =~= all.take(i as int).map_values(
                |r: NlaData| parse_link_attribute_spec(family, r),
            ),
        decreases n - i,
    {
        let v = match LinkAttribute::parse_with_param(&nlas[i], family) {
            Ok(v) => v,
            Err(e) => {
                return Err(e);
            },
        };
        proof {
            assert(all[i as int] == nlas@[i as int]@);
            assert(link_attr_views(acc@.push(v)) =~= link_attr_views(acc@).push(v@));
            assert(all.take(i + 1) =~= all.take(i as int).push(all[i as int]));
            assert(all.take(i + 1).map_values(|r: NlaData| parse_link_attribute_spec(family, r))
                =~= all.take(i as int).map_values(
                |r: NlaData| parse_link_attribute_spec(family, r),
            ).push(parse_link_attribute_spec(family, all[i as int])));
        }
        acc.push(v);
        i += 1;
    }
    proof {
        assert(all.take(n as int) =~= all);
    }
    Ok(acc)
}

/// A link message: the fixed header, then the ordered attribute sequence.
#[derive(Debug, PartialEq, Eq, Clone)]
pub struct LinkMessage {
    pub header: LinkHeader,
    pub attributes: Vec<LinkAttribute>,
}

/// Mathematical form of a link message.
pub struct LinkMessageView {
    pub header: LinkHeader,
    pub attributes: Seq<LinkAttributeView>,
}

impl View for LinkMessage {
    type V = LinkMessageView;

    open spec fn view(&self) -> LinkMessageView {
        LinkMessageView { header: self.header, attributes: link_attr_views(self.attributes@) }
    }
}

impl LinkMessageView {
    /// The exact wire bytes of the whole message: header, then each
    /// attribute's padded record in order.
    pub open spec fn wire_bytes(self) -> Seq<u8> {
        self.header.wire_bytes() + stream_emit_bytes(link_records(self.attributes))
    }
}

/// What a whole buffer decodes to: the header, whose family then governs
/// the attribute section after it.
pub open spec fn parse_link_message_spec(b: Seq<u8>) -> Result<LinkMessageView, DecodeError> {
    match LinkHeader::parse_spec(b) {
        Err(e) => Err(e),
        Ok(h) => match parse_link_attributes_spec(
            b.skip(LINK_HEADER_LEN as int),
            h.interface_family,
        ) {
            Err(e) => Err(e),
            Ok(attrs) => Ok(LinkMessageView { header: h, attributes: attrs }),
        },
    }
}

impl LinkMessage {
    /// Header length plus the padded span of every attribute.
    pub fn buffer_len(&self) -> (r: usize)
        requires
            LINK_HEADER_LEN + stream_len(link_records(link_attr_views(self.attributes@)))
                <= usize::MAX,
        ensures
            r == self@.wire_bytes().len(),
    {
        proof {
            lemma_auto_spec_u16_to_from_le_bytes();
            lemma_auto_spec_u32_to_from_le_bytes();
            crate::nla::lemma_stream_emit_len(link_records(link_attr_views(self.attributes@)));
        }
        let recs = self.records();
        LINK_HEADER_LEN + crate::nla::nlas_buffer_len(&recs)
    }

    /// The attributes as raw records.
    fn records(&self) -> (r: Vec<DefaultNla>)
        ensures
            nla_views(r@) == link_records(link_attr_views(self.attributes@)),
    {
        let n = self.attributes.len();
        let mut recs: Vec<DefaultNla> = Vec::new();
        let mut i: usize = 0;
        while i < n
            invariant
                i <= n,
                n == self.attributes@.len(),
                nla_views(recs@) =~= link_records(link_attr_views(self.attributes@)).take(
                    i as int,
                ),
            decreases n - i,
        {
            let rec = match &self.attributes[i] {
                LinkAttribute::Other(n) => DefaultNla {
                    kind: n.kind,
                    value: clone_bytes(&n.value),
                },
            };
            proof {
                assert(rec@ == self.attributes@[i as int]@.record());
                assert(link_records(link_attr_views(self.attributes@)).take(i + 1) =~= link_records(
                    link_attr_views(self.attributes@),
                ).take(i as int).push(self.attributes@[i as int]@.record()));
                assert(nla_views(recs@.push(rec)) =~= nla_views(recs@).push(rec@));
            }
            recs.push(rec);
            i += 1;
        }
        proof {
            assert(link_records(link_attr_views(self.attributes@)).take(n as int) =~= link_records(
                link_attr_views(self.attributes@),
            ));
        }
        assert(nla_views(recs@) =~= link_records(link_attr_views(self.attributes@)));
        recs
    }

    /// Writes header then attributes at correctly padded offsets into a
    /// buffer at least `buffer_len` long, leaving the rest unchanged.
    pub fn emit(&self, buffer: &mut Vec<u8>)
        requires
            forall|i: int|
                0 <= i < self.attributes@.len() ==> (#[trigger] self.attributes@[i]@).wf(),
            old(buffer)@.len() >= self@.wire_bytes().len(),
        ensures
            final(buffer)@.len() == old(buffer)@.len(),
            final(buffer)@.subrange(0, self@.wire_bytes().len() as int) == self@.wire_bytes(),
            forall|i: int|
                self@.wire_bytes().len() <= i < old(buffer)@.len() ==> final(buffer)@[i] == old(
                    buffer,
                )@[i],
    {
        let mut tmp = self.header.to_bytes();
        let recs = self.records();
        proof {
            assert forall|j: int| 0 <= j < recs@.len() implies crate::nla::nla_wf(
                #[trigger] recs@[j]@,
            ) by {
                assert(nla_views(recs@)[j] == recs@[j]@);
                assert(recs@[j]@ == self.attributes@[j]@.record());
            }
        }
        let mut stream = emit_nlas(&recs);
        tmp.append(&mut stream);
        assert(tmp@ =~= self@.wire_bytes());
        write_bytes_at(buffer, 0, &tmp);
    }

    /// Decodes a whole link message: the header, then the attribute
    /// section under the header's family.
    pub fn parse(buf: &Vec<u8>) -> (r: Result<LinkMessage, DecodeError>)
        ensures
            match r {
                Ok(m) => parse_link_message_spec(buf@) == Ok::<LinkMessageView, DecodeError>(m@),
                Err(e) => parse_link_message_spec(buf@) == Err::<LinkMessageView, DecodeError>(e),
            },
    {
        let header = match LinkHeader::parse(buf) {
            Ok(h) => h,
            Err(e) => {
                return Err(e);
            },
        };
        let interface_family = header.interface_family;
        let rest = subvec(buf, LINK_HEADER_LEN, buf.len());
        proof {
            assert(rest@ =~= buf@.skip(LINK_HEADER_LEN as int));
        }
        let attributes = match parse_link_attributes(&rest, interface_family) {
            Ok(v) => v,
            Err(e) => {
                return Err(e);
            },
        };
        Ok(LinkMessage { header, attributes })
    }
}

/// A whole well-formed link message round-trips: emitting it and decoding
/// the bytes again yields the same header and the same attribute list.
pub proof fn lemma_link_message_round_trip(m: LinkMessageView)
    requires
        address_family_canonical(m.header.interface_family),
        forall|i: int| 0 <= i < m.attributes.len() ==> (#[trigger] m.attributes[i]).wf(),
    ensures
        parse_link_message_spec(m.wire_bytes()) == Ok::<LinkMessageView, DecodeError>(m),
{
    lemma_link_header_round_trip(m.header);
    let b = m.wire_bytes();
    let stream = stream_emit_bytes(link_records(m.attributes));
    assert(b.subrange(0, LINK_HEADER_LEN as int) =~= m.header.wire_bytes());
    assert(b.len() >= LINK_HEADER_LEN);
    assert(LinkHeader::parse_spec(b) == LinkHeader::parse_spec(m.header.wire_bytes())) by {
        assert(b.subrange(2, 4) =~= m.header.wire_bytes().subrange(2, 4));
        assert(b.subrange(4, 8) =~= m.header.wire_bytes().subrange(4, 8));
        assert(b.subrange(8, 12) =~= m.header.wire_bytes().subrange(8, 12));
        assert(b.subrange(12, 16) =~= m.header.wire_bytes().subrange(12, 16));
        assert(b[0] == m.header.wire_bytes()[0]);
    }
    assert(b.skip(LINK_HEADER_LEN as int) =~= stream);
    assert forall|i: int| 0 <= i < link_records(m.attributes).len() implies crate::nla::nla_wf(
        #[trigger] link_records(m.attributes)[i],
    ) by {
        assert(link_records(m.attributes)[i] == m.attributes[i].record());
    }
    crate::nla::lemma_parse_emit_stream(link_records(m.attributes));
    let rs = link_records(m.attributes);
    assert(rs.map_values(|r: NlaData| parse_link_attribute_spec(m.header.interface_family, r))
        =~= m.attributes);
}

} // verus!
