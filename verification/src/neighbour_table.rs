//! Neighbour-table messages: the fixed four-byte table header followed by
//! an ordered TLV attribute sequence. The table namespace needs no context
//! value, and the analyzed subset maps no kind code to a typed variant, so
//! every record stays opaque, in order and with duplicates preserved.

use vstd::prelude::*;

use crate::bytes::clone_bytes;
use crate::bytes::subvec;
use crate::bytes::write_bytes_at;
use crate::error::DecodeError;
use crate::family::address_family_canonical;
use crate::family::address_family_code;
use crate::family::address_family_from_code;
use crate::family::AddressFamily;
use crate::nla::emit_nlas;
use crate::nla::nla_views;
use crate::nla::parse_nlas;
use crate::nla::parse_nlas_spec;
use crate::nla::stream_emit_bytes;
use crate::nla::stream_len;
use crate::nla::DefaultNla;
use crate::nla::NlaData;

verus! {

pub const NEIGHBOUR_TABLE_HEADER_LEN: usize = 4;

/// Fixed four-byte header of a neighbour-table message: family code and
/// three reserved bytes.
#[derive(Debug, PartialEq, Eq, Clone, Copy, Structural)]
pub struct NeighbourTableHeader {
    pub family: AddressFamily,
}

impl Default for NeighbourTableHeader {
    /// An unspecified-family header.
    fn default() -> (r: Self)
        ensures
            r == (NeighbourTableHeader { family: AddressFamily::Unspec }),
    {
        NeighbourTableHeader { family: AddressFamily::Unspec }
    }
}

impl NeighbourTableHeader {
    /// The exact four wire bytes of this header; reserved bytes write as
    /// zero.
    pub open spec fn wire_bytes(self) -> Seq<u8> {
        seq![address_family_code(self.family), 0u8, 0u8, 0u8]
    }

    /// What a buffer decodes to: the family code, the reserved bytes
    /// ignored, or the length error below four bytes.
    pub open spec fn parse_spec(b: Seq<u8>) -> Result<NeighbourTableHeader, DecodeError> {
        if b.len() < NEIGHBOUR_TABLE_HEADER_LEN {
            Err(DecodeError::BufferTooShort)
        } else {
            Ok(NeighbourTableHeader { family: address_family_from_code(b[0]) })
        }
    }

    /// Decodes the header at the start of a buffer.
    pub fn parse(buf: &Vec<u8>) -> (r: Result<NeighbourTableHeader, DecodeError>)
        ensures
            r == NeighbourTableHeader::parse_spec(buf@),
    {
        if buf.len() < NEIGHBOUR_TABLE_HEADER_LEN {
            return Err(DecodeError::BufferTooShort);
        }
        Ok(NeighbourTableHeader { family: AddressFamily::from(buf[0]) })
    }

    /// The constant length of this header.
    pub fn buffer_len(&self) -> (r: usize)
        ensures
            r == NEIGHBOUR_TABLE_HEADER_LEN,
            r == self.wire_bytes().len(),
    {
        NEIGHBOUR_TABLE_HEADER_LEN
    }

    /// Writes the header into the first four bytes of a buffer at least
    /// that long, leaving the rest unchanged.
    pub fn emit(&self, buffer: &mut Vec<u8>)
        requires
            old(buffer)@.len() >= NEIGHBOUR_TABLE_HEADER_LEN,
        ensures
            final(buffer)@.len() == old(buffer)@.len(),
            final(buffer)@.subrange(0, NEIGHBOUR_TABLE_HEADER_LEN as int) == self.wire_bytes(),
            forall|i: int|
                NEIGHBOUR_TABLE_HEADER_LEN <= i < old(buffer)@.len() ==> final(buffer)@[i] == old(
                    buffer,
                )@[i],
    {
        let tmp = self.to_bytes();
        write_bytes_at(buffer, 0, &tmp);
    }

    /// The header's wire bytes as a fresh vector.
    fn to_bytes(&self) -> (r: Vec<u8>)
        ensures
            r@ == self.wire_bytes(),
            r@.len() == NEIGHBOUR_TABLE_HEADER_LEN,
    {
        let mut tmp: Vec<u8> = Vec::new();
        tmp.push(u8::from(self.family));
        tmp.push(0u8);
        tmp.push(0u8);
        tmp.push(0u8);
        assert(tmp@ =~= self.wire_bytes());
        tmp
    }
}

/// Emitting a header whose family is in decoded form and parsing the bytes
/// again yields the same header.
pub proof fn lemma_neighbour_table_header_round_trip(h: NeighbourTableHeader)
    requires
        address_family_canonical(h.family),
    ensures
        h.wire_bytes().len() == NEIGHBOUR_TABLE_HEADER_LEN,
        NeighbourTableHeader::parse_spec(h.wire_bytes()) == Ok::<NeighbourTableHeader, DecodeError>(
            h,
        ),
{
}

/// One neighbour-table attribute. The analyzed namespace maps no kind code
/// to a typed variant, so every record is carried opaquely.
#[derive(Debug, PartialEq, Eq, Clone)]
pub enum NeighbourTableAttribute {
    Other(DefaultNla),
}

/// Mathematical form of a neighbour-table attribute.
pub enum NeighbourTableAttributeView {
    Other(NlaData),
}

impl View for NeighbourTableAttribute {
    type V = NeighbourTableAttributeView;

    open spec fn view(&self) -> NeighbourTableAttributeView {
        match self {
            NeighbourTableAttribute::Other(n) => NeighbourTableAttributeView::Other(n@),
        }
    }
}

impl NeighbourTableAttributeView {
    /// The record this attribute frames as.
    pub open spec fn record(self) -> NlaData {
        match self {
            NeighbourTableAttributeView::Other(n) => n,
        }
    }

    /// The value fits a record's 16-bit length field.
    pub open spec fn wf(self) -> bool {
        self.record().value.len() + 4 <= 0xffff
    }
}

/// What one record decodes to under the neighbour-table namespace.
pub open spec fn parse_neighbour_table_attribute_spec(r: NlaData) -> NeighbourTableAttributeView {
    NeighbourTableAttributeView::Other(r)
}

impl NeighbourTableAttribute {
    /// The wire kind code.
    pub fn kind(&self) -> (r: u16)
        ensures
            r == self@.record().kind,
    {
        match self {
            NeighbourTableAttribute::Other(n) => n.kind(),
        }
    }

    /// Exact unpadded length of the serialized value.
    pub fn value_len(&self) -> (r: usize)
        ensures
            r == self@.record().value.len(),
    {
        match self {
            NeighbourTableAttribute::Other(n) => n.value_len(),
        }
    }

    /// Writes exactly `value_len` bytes into a buffer of exactly that size.
    pub fn emit_value(&self, buffer: &mut Vec<u8>)
        requires
            old(buffer)@.len() == self@.record().value.len(),
        ensures
            final(buffer)@ == self@.record().value,
    {
        match self {
            NeighbourTableAttribute::Other(n) => n.emit_value(buffer),
        }
    }

    /// Decodes one raw record; every record is representable, so this
    /// never fails.
    pub fn parse(nla: &DefaultNla) -> (r: Result<Self, DecodeError>)
        ensures
            r is Ok,
            r->Ok_0@ == parse_neighbour_table_attribute_spec(nla@),
    {
        Ok(
            NeighbourTableAttribute::Other(
                DefaultNla { kind: nla.kind, value: clone_bytes(&nla.value) },
            ),
        )
    }
}

/// The attribute views of a parsed neighbour-table attribute list.
pub open spec fn neighbour_table_attr_views(vs: Seq<NeighbourTableAttribute>) -> Seq<
    NeighbourTableAttributeView,
> {
    vs.map_values(|v: NeighbourTableAttribute| v@)
}

/// The records an attribute list frames as.
pub open spec fn neighbour_table_records(vs: Seq<NeighbourTableAttributeView>) -> Seq<NlaData> {
    vs.map_values(|v: NeighbourTableAttributeView| v.record())
}

/// What an attribute section decodes to.
pub open spec fn parse_neighbour_table_attributes_spec(b: Seq<u8>) -> Result<
    Seq<NeighbourTableAttributeView>,
    DecodeError,
> {
    match parse_nlas_spec(b) {
        Err(e) => Err(e),
        Ok(rs) => Ok(rs.map_values(|r: NlaData| parse_neighbour_table_attribute_spec(r))),
    }
}

/// Decodes the attribute section of a neighbour-table message.
pub fn parse_neighbour_table_attributes(data: &Vec<u8>) -> (r: Result<
    Vec<NeighbourTableAttribute>,
    DecodeError,
>)
    ensures
        match r {
            Ok(v) => parse_neighbour_table_attributes_spec(data@) == Ok::<
                Seq<NeighbourTableAttributeView>,
                DecodeError,
            >(neighbour_table_attr_views(v@)),
            Err(e) => parse_neighbour_table_attributes_spec(data@) == Err::<
                Seq<NeighbourTableAttributeView>,
                DecodeError,
            >(e),
        },
{
    let nlas = match parse_nlas(data) {
        Ok(v) => v,
        Err(e) => {
            return Err(e);
        },
    };
    let ghost all = nla_views(nlas@);
    let n = nlas.len();
    let mut acc: Vec<NeighbourTableAttribute> = Vec::new();
    let mut i: usize = 0;
    while i < n
        invariant
            i <= n,
            n == nlas@.len(),
            all == nla_views(nlas@),
            parse_nlas_spec(data@) == Ok::<Seq<NlaData>, DecodeError>(all),
            neighbour_table_attr_views(acc@) =~= all.take(i as int).map_values(
                |r: NlaData| parse_neighbour_table_attribute_spec(r),
            ),
        decreases n - i,
    {
        let v = match NeighbourTableAttribute::parse(&nlas[i]) {
            Ok(v) => v,
            Err(e) => {
                return Err(e);
            },
        };
        proof {
            assert(all[i as int] == nlas@[i as int]@);
            assert(neighbour_table_attr_views(acc@.push(v)) =~= neighbour_table_attr_views(
                acc@,
            ).push(v@));
            assert(all.take(i + 1) =~= all.take(i as int).push(all[i as int]));
            assert(all.take(i + 1).map_values(
                |r: NlaData| parse_neighbour_table_attribute_spec(r),
            ) =~= all.take(i as int).map_values(
                |r: NlaData| parse_neighbour_table_attribute_spec(r),
            ).push(parse_neighbour_table_attribute_spec(all[i as int])));
        }
        acc.push(v);
        i += 1;
    }
    proof {
        assert(all.take(n as int) =~= all);
    }
    Ok(acc)
}

/// A neighbour-table message: the fixed header, then the ordered attribute
/// sequence.
#[derive(Debug, PartialEq, Eq, Clone)]
pub struct NeighbourTableMessage {
    pub header: NeighbourTableHeader,
    pub attributes: Vec<NeighbourTableAttribute>,
}

/// Mathematical form of a neighbour-table message.
pub struct NeighbourTableMessageView {
    pub header: NeighbourTableHeader,
    pub attributes: Seq<NeighbourTableAttributeView>,
}

impl View for NeighbourTableMessage {
    type V = NeighbourTableMessageView;

    open spec fn view(&self) -> NeighbourTableMessageView {
        NeighbourTableMessageView {
            header: self.header,
            attributes: neighbour_table_attr_views(self.attributes@),
        }
    }
}

impl NeighbourTableMessageView {
    /// The exact wire bytes of the whole message.
    pub open spec fn wire_bytes(self) -> Seq<u8> {
        self.header.wire_bytes() + stream_emit_bytes(neighbour_table_records(self.attributes))
    }
}

/// What a whole buffer decodes to: the header, then the attribute section
/// after it.
pub open spec fn parse_neighbour_table_message_spec(b: Seq<u8>) -> Result<
    NeighbourTableMessageView,
    DecodeError,
> {
    match NeighbourTableHeader::parse_spec(b) {
        Err(e) => Err(e),
        Ok(h) => match parse_neighbour_table_attributes_spec(
            b.skip(NEIGHBOUR_TABLE_HEADER_LEN as int),
        ) {
            Err(e) => Err(e),
            Ok(attrs) => Ok(NeighbourTableMessageView { header: h, attributes: attrs }),
        },
    }
}

impl NeighbourTableMessage {
    /// Header length plus the padded span of every attribute.
    pub fn buffer_len(&self) -> (r: usize)
        requires
            NEIGHBOUR_TABLE_HEADER_LEN + stream_len(
                neighbour_table_records(neighbour_table_attr_views(self.attributes@)),
            ) <= usize::MAX,
        ensures
            r == self@.wire_bytes().len(),
    {
        proof {
            crate::nla::lemma_stream_emit_len(
                neighbour_table_records(neighbour_table_attr_views(self.attributes@)),
            );
        }
        let recs = self.records();
        NEIGHBOUR_TABLE_HEADER_LEN + crate::nla::nlas_buffer_len(&recs)
    }

    /// The attributes as raw records.
    fn records(&self) -> (r: Vec<DefaultNla>)
        ensures
            nla_views(r@) == neighbour_table_records(neighbour_table_attr_views(self.attributes@)),
    {
        let n = self.attributes.len();
        let mut recs: Vec<DefaultNla> = Vec::new();
        let mut i: usize = 0;
        while i < n
            invariant
                i <= n,
                n == self.attributes@.len(),
                nla_views(recs@) =~= neighbour_table_records(
                    neighbour_table_attr_views(self.attributes@),
                ).take(i as int),
            decreases n - i,
        {
            let rec = match &self.attributes[i] {
                NeighbourTableAttribute::Other(n) => DefaultNla {
                    kind: n.kind,
                    value: clone_bytes(&n.value),
                },
            };
            proof {
                assert(rec@ == self.attributes@[i as int]@.record());
                assert(neighbour_table_records(neighbour_table_attr_views(self.attributes@)).take(
                    i + 1,
                ) =~= neighbour_table_records(neighbour_table_attr_views(self.attributes@)).take(
                    i as int,
                ).push(self.attributes@[i as int]@.record()));
                assert(nla_views(recs@.push(rec)) =~= nla_views(recs@).push(rec@));
            }
            recs.push(rec);
            i += 1;
        }
        proof {
            assert(neighbour_table_records(neighbour_table_attr_views(self.attributes@)).take(
                n as int,
            ) =~= neighbour_table_records(neighbour_table_attr_views(self.attributes@)));
        }
        assert(nla_views(recs@) =~= neighbour_table_records(
            neighbour_table_attr_views(self.attributes@),
        ));
        recs
    }

    /// Writes header then attributes at correctly padded offsets into a
    /// buffer at least `buffer_len` long, leaving the rest unchanged.
    pub fn emit(&self, buffer: &mut Vec<u8>)
        requires
            forall|i: int|
                0 <= i < self.attributes@.len() ==> (#[trigger] self.attributes@[i]@).wf(),
            old(buffer)@.len() >= self@.wire_bytes().len(),
        ensures
            final(buffer)@.len() == old(buffer)@.len(),
            final(buffer)@.subrange(0, self@.wire_bytes().len() as int) == self@.wire_bytes(),
            forall|i: int|
                self@.wire_bytes().len() <= i < old(buffer)@.len() ==> final(buffer)@[i] == old(
                    buffer,
                )@[i],
    {
        let mut tmp = self.header.to_bytes();
        let recs = self.records();
        proof {
            assert forall|j: int| 0 <= j < recs@.len() implies crate::nla::nla_wf(
                #[trigger] recs@[j]@,
            ) by {
                assert(nla_views(recs@)[j] == recs@[j]@);
                assert(recs@[j]@ == self.attributes@[j]@.record());
            }
        }
        let mut stream = emit_nlas(&recs);
        tmp.append(&mut stream);
        assert(tmp@ =~= self@.wire_bytes());
        write_bytes_at(buffer, 0, &tmp);
    }

    /// Decodes a whole neighbour-table message.
    pub fn parse(buf: &Vec<u8>) -> (r: Result<NeighbourTableMessage, DecodeError>)
        ensures
            match r {
                Ok(m) => parse_neighbour_table_message_spec(buf@) == Ok::<
                    NeighbourTableMessageView,
                    DecodeError,
                >(m@),
                Err(e) => parse_neighbour_table_message_spec(buf@) == Err::<
                    NeighbourTableMessageView,
                    DecodeError,
                >(e),
            },
    {
        let header = match NeighbourTableHeader::parse(buf) {
            Ok(h) => h,
            Err(e) => {
                return Err(e);
            },
        };
        let rest = subvec(buf, NEIGHBOUR_TABLE_HEADER_LEN, buf.len());
        proof {
            assert(rest@ =~= buf@.skip(NEIGHBOUR_TABLE_HEADER_LEN as int));
        }
        let attributes = match parse_neighbour_table_attributes(&rest) {
            Ok(v) => v,
            Err(e) => {
                return Err(e);
            },
        };
        Ok(NeighbourTableMessage { header, attributes })
    }
}

/// A whole well-formed neighbour-table message round-trips: emitting it
/// and decoding the bytes again yields the same header and attribute list.
pub proof fn lemma_neighbour_table_message_round_trip(m: NeighbourTableMessageView)
    requires
        address_family_canonical(m.header.family),
        forall|i: int| 0 <= i < m.attributes.len() ==> (#[trigger] m.attributes[i]).wf(),
    ensures
        parse_neighbour_table_message_spec(m.wire_bytes()) == Ok::<
            NeighbourTableMessageView,
            DecodeError,
        >(m),
{
    lemma_neighbour_table_header_round_trip(m.header);
    let b = m.wire_bytes();
    let stream = stream_emit_bytes(neighbour_table_records(m.attributes));
    assert(b.subrange(0, NEIGHBOUR_TABLE_HEADER_LEN as int) =~= m.header.wire_bytes());
    assert(b.len() >= NEIGHBOUR_TABLE_HEADER_LEN);
    assert(b[0] == m.header.wire_bytes()[0]);
    assert(b.skip(NEIGHBOUR_TABLE_HEADER_LEN as int) =~= stream);
    assert forall|i: int|
        0 <= i < neighbour_table_records(m.attributes).len() implies crate::nla::nla_wf(
        #[trigger] neighbour_table_records(m.attributes)[i],
    ) by {
        assert(neighbour_table_records(m.attributes)[i] == m.attributes[i].record());
    }
    crate::nla::lemma_parse_emit_stream(neighbour_table_records(m.attributes));
    let rs = neighbour_table_records(m.attributes);
    assert(rs.map_values(|r: NlaData| parse_neighbour_table_attribute_spec(r)) =~= m.attributes);
}

} // verus!
