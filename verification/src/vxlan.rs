//! Vxlan link-info sub-attributes: tunnel id, endpoint addresses, port
//! numbers and the many one-byte switches of a vxlan device. The kind space
//! is unambiguous inside a vxlan container. Addresses are raw octets, four
//! for v4 and sixteen for v6; a mismatched address width is a decode
//! failure. Port fields are big-endian; everything else is native order.
//! Three kinds carry no payload at all: their mere presence reads as true.

use vstd::bytes::*;
use vstd::prelude::*;

use crate::bytes::clone_bytes;
use crate::bytes::parse_u16_be;
use crate::bytes::parse_u32;
use crate::bytes::parse_u8;
use crate::bytes::push_u16_be;
use crate::bytes::push_u32_le;
use crate::bytes::spec_u16_from_be_bytes;
use crate::bytes::spec_u16_to_be_bytes;
use crate::bytes::subvec;
use crate::error::DecodeError;
use crate::nla::DefaultNla;
use crate::nla::NlaData;

verus! {

pub const IFLA_VXLAN_ID: u16 = 1;

pub const IFLA_VXLAN_GROUP: u16 = 2;

pub const IFLA_VXLAN_LINK: u16 = 3;

pub const IFLA_VXLAN_LOCAL: u16 = 4;

pub const IFLA_VXLAN_TTL: u16 = 5;

pub const IFLA_VXLAN_TOS: u16 = 6;

pub const IFLA_VXLAN_LEARNING: u16 = 7;

pub const IFLA_VXLAN_AGEING: u16 = 8;

pub const IFLA_VXLAN_LIMIT: u16 = 9;

pub const IFLA_VXLAN_PORT_RANGE: u16 = 10;

pub const IFLA_VXLAN_PROXY: u16 = 11;

pub const IFLA_VXLAN_RSC: u16 = 12;

pub const IFLA_VXLAN_L2MISS: u16 = 13;

pub const IFLA_VXLAN_L3MISS: u16 = 14;

pub const IFLA_VXLAN_PORT: u16 = 15;

pub const IFLA_VXLAN_GROUP6: u16 = 16;

pub const IFLA_VXLAN_LOCAL6: u16 = 17;

pub const IFLA_VXLAN_UDP_CSUM: u16 = 18;

pub const IFLA_VXLAN_UDP_ZERO_CSUM6_TX: u16 = 19;

pub const IFLA_VXLAN_UDP_ZERO_CSUM6_RX: u16 = 20;

pub const IFLA_VXLAN_REMCSUM_TX: u16 = 21;

pub const IFLA_VXLAN_REMCSUM_RX: u16 = 22;

pub const IFLA_VXLAN_GBP: u16 = 23;

pub const IFLA_VXLAN_REMCSUM_NOPARTIAL: u16 = 24;

pub const IFLA_VXLAN_COLLECT_METADATA: u16 = 25;

pub const IFLA_VXLAN_LABEL: u16 = 26;

pub const IFLA_VXLAN_GPE: u16 = 27;

pub const IFLA_VXLAN_TTL_INHERIT: u16 = 28;

pub const IFLA_VXLAN_DF: u16 = 29;

pub const IFLA_VXLAN_VNIFILTER: u16 = 30;

pub const IFLA_VXLAN_LOCALBYPASS: u16 = 31;

/// A one-byte boolean reads as true on any nonzero byte.
pub open spec fn bool_of_byte(b: u8) -> bool {
    b > 0
}

/// A boolean writes as a literal 0 or 1.
pub open spec fn byte_of_bool(v: bool) -> u8 {
    if v {
        1
    } else {
        0
    }
}

/// One vxlan attribute: a known, typed variant or the opaque fallback.
/// Addresses hold their raw octets, four for v4, sixteen for v6.
#[derive(Debug, PartialEq, Eq, Clone)]
pub enum InfoVxlan {
    Id(u32),
    Group(Vec<u8>),
    Group6(Vec<u8>),
    Link(u32),
    Local(Vec<u8>),
    Local6(Vec<u8>),
    Tos(u8),
    Ttl(u8),
    Label(u32),
    Learning(bool),
    Ageing(u32),
    Limit(u32),
    PortRange(u16, u16),
    Proxy(bool),
    Rsc(bool),
    L2Miss(bool),
    L3Miss(bool),
    CollectMetadata(bool),
    Port(u16),
    UDPCsum(bool),
    UDPZeroCsumTX(bool),
    UDPZeroCsumRX(bool),
    RemCsumTX(bool),
    RemCsumRX(bool),
    Gbp(bool),
    Gpe(bool),
    RemCsumNoPartial(bool),
    TtlInherit(bool),
    Df(u8),
    Vnifilter(bool),
    Localbypass(bool),
    Other(DefaultNla),
}

/// Mathematical form of a vxlan attribute.
pub enum InfoVxlanView {
    Id(u32),
    Group(Seq<u8>),
    Group6(Seq<u8>),
    Link(u32),
    Local(Seq<u8>),
    Local6(Seq<u8>),
    Tos(u8),
    Ttl(u8),
    Label(u32),
    Learning(bool),
    Ageing(u32),
    Limit(u32),
    PortRange(u16, u16),
    Proxy(bool),
    Rsc(bool),
    L2Miss(bool),
    L3Miss(bool),
    CollectMetadata(bool),
    Port(u16),
    UDPCsum(bool),
    UDPZeroCsumTX(bool),
    UDPZeroCsumRX(bool),
    RemCsumTX(bool),
    RemCsumRX(bool),
    Gbp(bool),
    Gpe(bool),
    RemCsumNoPartial(bool),
    TtlInherit(bool),
    Df(u8),
    Vnifilter(bool),
    Localbypass(bool),
    Other(NlaData),
}

impl View for InfoVxlan {
    type V = InfoVxlanView;

    open spec fn view(&self) -> InfoVxlanView {
        match self {
            InfoVxlan::Id(v) => InfoVxlanView::Id(*v),
            InfoVxlan::Group(b) => InfoVxlanView::Group(b@),
            InfoVxlan::Group6(b) => InfoVxlanView::Group6(b@),
            InfoVxlan::Link(v) => InfoVxlanView::Link(*v),
            InfoVxlan::Local(b) => InfoVxlanView::Local(b@),
            InfoVxlan::Local6(b) => InfoVxlanView::Local6(b@),
            InfoVxlan::Tos(v) => InfoVxlanView::Tos(*v),
            InfoVxlan::Ttl(v) => InfoVxlanView::Ttl(*v),
            InfoVxlan::Label(v) => InfoVxlanView::Label(*v),
            InfoVxlan::Learning(v) => InfoVxlanView::Learning(*v),
            InfoVxlan::Ageing(v) => InfoVxlanView::Ageing(*v),
            InfoVxlan::Limit(v) => InfoVxlanView::Limit(*v),
            InfoVxlan::PortRange(lo, hi) => InfoVxlanView::PortRange(*lo, *hi),
            InfoVxlan::Proxy(v) => InfoVxlanView::Proxy(*v),
            InfoVxlan::Rsc(v) => InfoVxlanView::Rsc(*v),
            InfoVxlan::L2Miss(v) => InfoVxlanView::L2Miss(*v),
            InfoVxlan::L3Miss(v) => InfoVxlanView::L3Miss(*v),
            InfoVxlan::CollectMetadata(v) => InfoVxlanView::CollectMetadata(*v),
            InfoVxlan::Port(v) => InfoVxlanView::Port(*v),
            InfoVxlan::UDPCsum(v) => InfoVxlanView::UDPCsum(*v),
            InfoVxlan::UDPZeroCsumTX(v) => InfoVxlanView::UDPZeroCsumTX(*v),
            InfoVxlan::UDPZeroCsumRX(v) => InfoVxlanView::UDPZeroCsumRX(*v),
            InfoVxlan::RemCsumTX(v) => InfoVxlanView::RemCsumTX(*v),
            InfoVxlan::RemCsumRX(v) => InfoVxlanView::RemCsumRX(*v),
            InfoVxlan::Gbp(v) => InfoVxlanView::Gbp(*v),
            InfoVxlan::Gpe(v) => InfoVxlanView::Gpe(*v),
            InfoVxlan::RemCsumNoPartial(v) => InfoVxlanView::RemCsumNoPartial(*v),
            InfoVxlan::TtlInherit(v) => InfoVxlanView::TtlInherit(*v),
            InfoVxlan::Df(v) => InfoVxlanView::Df(*v),
            InfoVxlan::Vnifilter(v) => InfoVxlanView::Vnifilter(*v),
            InfoVxlan::Localbypass(v) => InfoVxlanView::Localbypass(*v),
            InfoVxlan::Other(n) => InfoVxlanView::Other(n@),
        }
    }
}

impl InfoVxlanView {
    /// The wire kind code of this attribute.
    pub open spec fn kind_spec(self) -> u16 {
        match self {
            InfoVxlanView::Id(_) => IFLA_VXLAN_ID,
            InfoVxlanView::Group(_) => IFLA_VXLAN_GROUP,
            InfoVxlanView::Group6(_) => IFLA_VXLAN_GROUP6,
            InfoVxlanView::Link(_) => IFLA_VXLAN_LINK,
            InfoVxlanView::Local(_) => IFLA_VXLAN_LOCAL,
            InfoVxlanView::Local6(_) => IFLA_VXLAN_LOCAL6,
            InfoVxlanView::Tos(_) => IFLA_VXLAN_TOS,
            InfoVxlanView::Ttl(_) => IFLA_VXLAN_TTL,
            InfoVxlanView::Label(_) => IFLA_VXLAN_LABEL,
            InfoVxlanView::Learning(_) => IFLA_VXLAN_LEARNING,
            InfoVxlanView::Ageing(_) => IFLA_VXLAN_AGEING,
            InfoVxlanView::Limit(_) => IFLA_VXLAN_LIMIT,
            InfoVxlanView::PortRange(_, _) => IFLA_VXLAN_PORT_RANGE,
            InfoVxlanView::Proxy(_) => IFLA_VXLAN_PROXY,
            InfoVxlanView::Rsc(_) => IFLA_VXLAN_RSC,
            InfoVxlanView::L2Miss(_) => IFLA_VXLAN_L2MISS,
            InfoVxlanView::L3Miss(_) => IFLA_VXLAN_L3MISS,
            InfoVxlanView::CollectMetadata(_) => IFLA_VXLAN_COLLECT_METADATA,
            InfoVxlanView::Port(_) => IFLA_VXLAN_PORT,
            InfoVxlanView::UDPCsum(_) => IFLA_VXLAN_UDP_CSUM,
            InfoVxlanView::UDPZeroCsumTX(_) => IFLA_VXLAN_UDP_ZERO_CSUM6_TX,
            InfoVxlanView::UDPZeroCsumRX(_) => IFLA_VXLAN_UDP_ZERO_CSUM6_RX,
            InfoVxlanView::RemCsumTX(_) => IFLA_VXLAN_REMCSUM_TX,
            InfoVxlanView::RemCsumRX(_) => IFLA_VXLAN_REMCSUM_RX,
            InfoVxlanView::Gbp(_) => IFLA_VXLAN_GBP,
            InfoVxlanView::Gpe(_) => IFLA_VXLAN_GPE,
            InfoVxlanView::RemCsumNoPartial(_) => IFLA_VXLAN_REMCSUM_NOPARTIAL,
            InfoVxlanView::TtlInherit(_) => IFLA_VXLAN_TTL_INHERIT,
            InfoVxlanView::Df(_) => IFLA_VXLAN_DF,
            InfoVxlanView::Vnifilter(_) => IFLA_VXLAN_VNIFILTER,
            InfoVxlanView::Localbypass(_) => IFLA_VXLAN_LOCALBYPASS,
            InfoVxlanView::Other(n) => n.kind,
        }
    }

    /// The exact unpadded value bytes this attribute serializes to.
    pub open spec fn value_bytes(self) -> Seq<u8> {
        match self {
            InfoVxlanView::Id(v) => spec_u32_to_le_bytes(v),
            InfoVxlanView::Label(v) => spec_u32_to_le_bytes(v),
            InfoVxlanView::Link(v) => spec_u32_to_le_bytes(v),
            InfoVxlanView::Ageing(v) => spec_u32_to_le_bytes(v),
            InfoVxlanView::Limit(v) => spec_u32_to_le_bytes(v),
            InfoVxlanView::Group(b) => b,
            InfoVxlanView::Group6(b) => b,
            InfoVxlanView::Local(b) => b,
            InfoVxlanView::Local6(b) => b,
            InfoVxlanView::Tos(v) => seq![v],
            InfoVxlanView::Ttl(v) => seq![v],
            InfoVxlanView::Df(v) => seq![v],
            InfoVxlanView::Learning(v) => seq![byte_of_bool(v)],
            InfoVxlanView::Proxy(v) => seq![byte_of_bool(v)],
            InfoVxlanView::Rsc(v) => seq![byte_of_bool(v)],
            InfoVxlanView::L2Miss(v) => seq![byte_of_bool(v)],
            InfoVxlanView::L3Miss(v) => seq![byte_of_bool(v)],
            InfoVxlanView::CollectMetadata(v) => seq![byte_of_bool(v)],
            InfoVxlanView::UDPCsum(v) => seq![byte_of_bool(v)],
            InfoVxlanView::UDPZeroCsumTX(v) => seq![byte_of_bool(v)],
            InfoVxlanView::UDPZeroCsumRX(v) => seq![byte_of_bool(v)],
            InfoVxlanView::RemCsumTX(v) => seq![byte_of_bool(v)],
            InfoVxlanView::RemCsumRX(v) => seq![byte_of_bool(v)],
            InfoVxlanView::TtlInherit(v) => seq![byte_of_bool(v)],
            InfoVxlanView::Vnifilter(v) => seq![byte_of_bool(v)],
            InfoVxlanView::Localbypass(v) => seq![byte_of_bool(v)],
            InfoVxlanView::Gbp(_) => Seq::empty(),
            InfoVxlanView::Gpe(_) => Seq::empty(),
            InfoVxlanView::RemCsumNoPartial(_) => Seq::empty(),
            InfoVxlanView::Port(v) => spec_u16_to_be_bytes(v),
            InfoVxlanView::PortRange(lo, hi) => spec_u16_to_be_bytes(lo) + spec_u16_to_be_bytes(hi),
            InfoVxlanView::Other(n) => n.value,
        }
    }

    /// The record this attribute frames as.
    pub open spec fn record(self) -> NlaData {
        NlaData { kind: self.kind_spec(), value: self.value_bytes() }
    }

    /// Validity: addresses hold the octet count their family defines, and
    /// the value fits a record's 16-bit length field.
    pub open spec fn wf(self) -> bool {
        match self {
            InfoVxlanView::Group(b) => b.len() == 4,
            InfoVxlanView::Local(b) => b.len() == 4,
            InfoVxlanView::Group6(b) => b.len() == 16,
            InfoVxlanView::Local6(b) => b.len() == 16,
            InfoVxlanView::Other(n) => n.value.len() + 4 <= 0xffff,
            _ => true,
        }
    }

    /// The attribute is in the form parsing itself produces: a
    /// presence-only kind (no payload at all) always reads as true, so only
    /// the true form round-trips.
    pub open spec fn canonical(self) -> bool {
        match self {
            InfoVxlanView::Gbp(v) => v,
            InfoVxlanView::Gpe(v) => v,
            InfoVxlanView::RemCsumNoPartial(v) => v,
            _ => true,
        }
    }
}

/// What a raw record decodes to under the vxlan namespace: a typed variant
/// for each known kind code, failing where the payload width is wrong, the
/// opaque fallback for every other code.
pub open spec fn parse_info_vxlan_spec(r: NlaData) -> Result<InfoVxlanView, DecodeError> {
    if r.kind == IFLA_VXLAN_ID {
        if r.value.len() == 4 {
            Ok(InfoVxlanView::Id(spec_u32_from_le_bytes(r.value)))
        } else {
            Err(DecodeError::UnparseableScalar)
        }
    } else if r.kind == IFLA_VXLAN_GROUP {
        if r.value.len() == 4 {
            Ok(InfoVxlanView::Group(r.value))
        } else {
            Err(DecodeError::UnexpectedValueLength)
        }
    } else if r.kind == IFLA_VXLAN_LOCAL {
        if r.value.len() == 4 {
            Ok(InfoVxlanView::Local(r.value))
        } else {
            Err(DecodeError::UnexpectedValueLength)
        }
    } else if r.kind == IFLA_VXLAN_GROUP6 {
        if r.value.len() == 16 {
            Ok(InfoVxlanView::Group6(r.value))
        } else {
            Err(DecodeError::UnexpectedValueLength)
        }
    } else if r.kind == IFLA_VXLAN_LOCAL6 {
        if r.value.len() == 16 {
            Ok(InfoVxlanView::Local6(r.value))
        } else {
            Err(DecodeError::UnexpectedValueLength)
        }
    } else if r.kind == IFLA_VXLAN_LINK {
        if r.value.len() == 4 {
            Ok(InfoVxlanView::Link(spec_u32_from_le_bytes(r.value)))
        } else {
            Err(DecodeError::UnparseableScalar)
        }
    } else if r.kind == IFLA_VXLAN_TOS {
        if r.value.len() == 1 {
            Ok(InfoVxlanView::Tos(r.value[0]))
        } else {
            Err(DecodeError::UnparseableScalar)
        }
    } else if r.kind == IFLA_VXLAN_TTL {
        if r.value.len() == 1 {
            Ok(InfoVxlanView::Ttl(r.value[0]))
        } else {
            Err(DecodeError::UnparseableScalar)
        }
    } else if r.kind == IFLA_VXLAN_LABEL {
        if r.value.len() == 4 {
            Ok(InfoVxlanView::Label(spec_u32_from_le_bytes(r.value)))
        } else {
            Err(DecodeError::UnparseableScalar)
        }
    } else if r.kind == IFLA_VXLAN_LEARNING {
        if r.value.len() == 1 {
            Ok(InfoVxlanView::Learning(bool_of_byte(r.value[0])))
        } else {
            Err(DecodeError::UnparseableScalar)
        }
    } else if r.kind == IFLA_VXLAN_AGEING {
        if r.value.len() == 4 {
            Ok(InfoVxlanView::Ageing(spec_u32_from_le_bytes(r.value)))
        } else {
            Err(DecodeError::UnparseableScalar)
        }
    } else if r.kind == IFLA_VXLAN_LIMIT {
        if r.value.len() == 4 {
            Ok(InfoVxlanView::Limit(spec_u32_from_le_bytes(r.value)))
        } else {
            Err(DecodeError::UnparseableScalar)
        }
    } else if r.kind == IFLA_VXLAN_PROXY {
        if r.value.len() == 1 {
            Ok(InfoVxlanView::Proxy(bool_of_byte(r.value[0])))
        } else {
            Err(DecodeError::UnparseableScalar)
        }
    } else if r.kind == IFLA_VXLAN_RSC {
        if r.value.len() == 1 {
            Ok(InfoVxlanView::Rsc(bool_of_byte(r.value[0])))
        } else {
            Err(DecodeError::UnparseableScalar)
        }
    } else if r.kind == IFLA_VXLAN_L2MISS {
        if r.value.len() == 1 {
            Ok(InfoVxlanView::L2Miss(bool_of_byte(r.value[0])))
        } else {
            Err(DecodeError::UnparseableScalar)
        }
    } else if r.kind == IFLA_VXLAN_L3MISS {
        if r.value.len() == 1 {
            Ok(InfoVxlanView::L3Miss(bool_of_byte(r.value[0])))
        } else {
            Err(DecodeError::UnparseableScalar)
        }
    } else if r.kind == IFLA_VXLAN_COLLECT_METADATA {
        if r.value.len() == 1 {
            Ok(InfoVxlanView::CollectMetadata(bool_of_byte(r.value[0])))
        } else {
            Err(DecodeError::UnparseableScalar)
        }
    } else if r.kind == IFLA_VXLAN_PORT_RANGE {
        if r.value.len() == 4 {
            Ok(
                InfoVxlanView::PortRange(
                    spec_u16_from_be_bytes(r.value.subrange(0, 2)),
                    spec_u16_from_be_bytes(r.value.subrange(2, 4)),
                ),
            )
        } else {
            Err(DecodeError::UnexpectedValueLength)
        }
    } else if r.kind == IFLA_VXLAN_PORT {
        if r.value.len() == 2 {
            Ok(InfoVxlanView::Port(spec_u16_from_be_bytes(r.value)))
        } else {
            Err(DecodeError::UnparseableScalar)
        }
    } else if r.kind == IFLA_VXLAN_UDP_CSUM {
        if r.value.len() == 1 {
            Ok(InfoVxlanView::UDPCsum(bool_of_byte(r.value[0])))
        } else {
            Err(DecodeError::UnparseableScalar)
        }
    } else if r.kind == IFLA_VXLAN_UDP_ZERO_CSUM6_TX {
        if r.value.len() == 1 {
            Ok(InfoVxlanView::UDPZeroCsumTX(bool_of_byte(r.value[0])))
        } else {
            Err(DecodeError::UnparseableScalar)
        }
    } else if r.kind == IFLA_VXLAN_UDP_ZERO_CSUM6_RX {
        if r.value.len() == 1 {
            Ok(InfoVxlanView::UDPZeroCsumRX(bool_of_byte(r.value[0])))
        } else {
            Err(DecodeError::UnparseableScalar)
        }
    } else if r.kind == IFLA_VXLAN_REMCSUM_TX {
        if r.value.len() == 1 {
            Ok(InfoVxlanView::RemCsumTX(bool_of_byte(r.value[0])))
        } else {
            Err(DecodeError::UnparseableScalar)
        }
    } else if r.kind == IFLA_VXLAN_REMCSUM_RX {
        if r.value.len() == 1 {
            Ok(InfoVxlanView::RemCsumRX(bool_of_byte(r.value[0])))
        } else {
            Err(DecodeError::UnparseableScalar)
        }
    } else if r.kind == IFLA_VXLAN_DF {
        if r.value.len() == 1 {
            Ok(InfoVxlanView::Df(r.value[0]))
        } else {
            Err(DecodeError::UnparseableScalar)
        }
    } else if r.kind == IFLA_VXLAN_GBP {
        Ok(InfoVxlanView::Gbp(true))
    } else if r.kind == IFLA_VXLAN_GPE {
        Ok(InfoVxlanView::Gpe(true))
    } else if r.kind == IFLA_VXLAN_REMCSUM_NOPARTIAL {
        Ok(InfoVxlanView::RemCsumNoPartial(true))
    } else if r.kind == IFLA_VXLAN_TTL_INHERIT {
        if r.value.len() == 1 {
            Ok(InfoVxlanView::TtlInherit(bool_of_byte(r.value[0])))
        } else {
            Err(DecodeError::UnparseableScalar)
        }
    } else if r.kind == IFLA_VXLAN_VNIFILTER {
        if r.value.len() == 1 {
            Ok(InfoVxlanView::Vnifilter(bool_of_byte(r.value[0])))
        } else {
            Err(DecodeError::UnparseableScalar)
        }
    } else if r.kind == IFLA_VXLAN_LOCALBYPASS {
        if r.value.len() == 1 {
            Ok(InfoVxlanView::Localbypass(bool_of_byte(r.value[0])))
        } else {
            Err(DecodeError::UnparseableScalar)
        }
    } else {
        Ok(InfoVxlanView::Other(r))
    }
}

impl InfoVxlan {
    /// The wire kind code.
    pub fn kind(&self) -> (r: u16)
        ensures
            r == self@.kind_spec(),
    {
        match self {
            InfoVxlan::Id(_) => IFLA_VXLAN_ID,
            InfoVxlan::Group(_) => IFLA_VXLAN_GROUP,
            InfoVxlan::Group6(_) => IFLA_VXLAN_GROUP6,
            InfoVxlan::Link(_) => IFLA_VXLAN_LINK,
            InfoVxlan::Local(_) => IFLA_VXLAN_LOCAL,
            InfoVxlan::Local6(_) => IFLA_VXLAN_LOCAL6,
            InfoVxlan::Tos(_) => IFLA_VXLAN_TOS,
            InfoVxlan::Ttl(_) => IFLA_VXLAN_TTL,
            InfoVxlan::Label(_) => IFLA_VXLAN_LABEL,
            InfoVxlan::Learning(_) => IFLA_VXLAN_LEARNING,
            InfoVxlan::Ageing(_) => IFLA_VXLAN_AGEING,
            InfoVxlan::Limit(_) => IFLA_VXLAN_LIMIT,
            InfoVxlan::PortRange(_, _) => IFLA_VXLAN_PORT_RANGE,
            InfoVxlan::Proxy(_) => IFLA_VXLAN_PROXY,
            InfoVxlan::Rsc(_) => IFLA_VXLAN_RSC,
            InfoVxlan::L2Miss(_) => IFLA_VXLAN_L2MISS,
            InfoVxlan::L3Miss(_) => IFLA_VXLAN_L3MISS,
            InfoVxlan::CollectMetadata(_) => IFLA_VXLAN_COLLECT_METADATA,
            InfoVxlan::Port(_) => IFLA_VXLAN_PORT,
            InfoVxlan::UDPCsum(_) => IFLA_VXLAN_UDP_CSUM,
            InfoVxlan::UDPZeroCsumTX(_) => IFLA_VXLAN_UDP_ZERO_CSUM6_TX,
            InfoVxlan::UDPZeroCsumRX(_) => IFLA_VXLAN_UDP_ZERO_CSUM6_RX,
            InfoVxlan::RemCsumTX(_) => IFLA_VXLAN_REMCSUM_TX,
            InfoVxlan::RemCsumRX(_) => IFLA_VXLAN_REMCSUM_RX,
            InfoVxlan::Gbp(_) => IFLA_VXLAN_GBP,
            InfoVxlan::Gpe(_) => IFLA_VXLAN_GPE,
            InfoVxlan::RemCsumNoPartial(_) => IFLA_VXLAN_REMCSUM_NOPARTIAL,
            InfoVxlan::TtlInherit(_) => IFLA_VXLAN_TTL_INHERIT,
            InfoVxlan::Df(_) => IFLA_VXLAN_DF,
            InfoVxlan::Vnifilter(_) => IFLA_VXLAN_VNIFILTER,
            InfoVxlan::Localbypass(_) => IFLA_VXLAN_LOCALBYPASS,
            InfoVxlan::Other(nla) => nla.kind(),
        }
    }

    /// Exact unpadded length of the serialized value.
    pub fn value_len(&self) -> (r: usize)
        ensures
            r == self@.value_bytes().len(),
    {
        proof {
            lemma_auto_spec_u16_to_from_le_bytes();
            lemma_auto_spec_u32_to_from_le_bytes();
        }
        match self {
            InfoVxlan::Tos(_) => 1,
            InfoVxlan::Ttl(_) => 1,
            InfoVxlan::Df(_) => 1,
            InfoVxlan::Learning(_) => 1,
            InfoVxlan::Proxy(_) => 1,
            InfoVxlan::Rsc(_) => 1,
            InfoVxlan::L2Miss(_) => 1,
            InfoVxlan::L3Miss(_) => 1,
            InfoVxlan::CollectMetadata(_) => 1,
            InfoVxlan::UDPCsum(_) => 1,
            InfoVxlan::UDPZeroCsumTX(_) => 1,
            InfoVxlan::UDPZeroCsumRX(_) => 1,
            InfoVxlan::RemCsumTX(_) => 1,
            InfoVxlan::RemCsumRX(_) => 1,
            InfoVxlan::TtlInherit(_) => 1,
            InfoVxlan::Vnifilter(_) => 1,
            InfoVxlan::Localbypass(_) => 1,
            InfoVxlan::Gbp(_) => 0,
            InfoVxlan::Gpe(_) => 0,
            InfoVxlan::RemCsumNoPartial(_) => 0,
            InfoVxlan::Port(_) => 2,
            InfoVxlan::Id(_) => 4,
            InfoVxlan::Label(_) => 4,
            InfoVxlan::Link(_) => 4,
            InfoVxlan::Ageing(_) => 4,
            InfoVxlan::Limit(_) => 4,
            InfoVxlan::PortRange(_, _) => 4,
            InfoVxlan::Group(b) => b.len(),
            InfoVxlan::Local(b) => b.len(),
            InfoVxlan::Group6(b) => b.len(),
            InfoVxlan::Local6(b) => b.len(),
            InfoVxlan::Other(nla) => nla.value_len(),
        }
    }

    /// Writes exactly `value_len` bytes into a buffer of exactly that size;
    /// serialization of a constructed value never fails.
    pub fn emit_value(&self, buffer: &mut Vec<u8>)
        requires
            old(buffer)@.len() == self@.value_bytes().len(),
        ensures
            final(buffer)@ == self@.value_bytes(),
    {
        buffer.clear();
        match self {
            InfoVxlan::Id(value) => push_u32_le(buffer, *value),
            InfoVxlan::Label(value) => push_u32_le(buffer, *value),
            InfoVxlan::Link(value) => push_u32_le(buffer, *value),
            InfoVxlan::Ageing(value) => push_u32_le(buffer, *value),
            InfoVxlan::Limit(value) => push_u32_le(buffer, *value),
            InfoVxlan::Gbp(_value) => (),
            InfoVxlan::Gpe(_value) => (),
            InfoVxlan::RemCsumNoPartial(_value) => (),
            InfoVxlan::Tos(value) => buffer.push(*value),
            InfoVxlan::Ttl(value) => buffer.push(*value),
            InfoVxlan::Df(value) => buffer.push(*value),
            InfoVxlan::Vnifilter(value) => buffer.push(if *value { 1 } else { 0 }),
            InfoVxlan::Localbypass(value) => buffer.push(if *value { 1 } else { 0 }),
            InfoVxlan::Learning(value) => buffer.push(if *value { 1 } else { 0 }),
            InfoVxlan::Proxy(value) => buffer.push(if *value { 1 } else { 0 }),
            InfoVxlan::Rsc(value) => buffer.push(if *value { 1 } else { 0 }),
            InfoVxlan::L2Miss(value) => buffer.push(if *value { 1 } else { 0 }),
            InfoVxlan::L3Miss(value) => buffer.push(if *value { 1 } else { 0 }),
            InfoVxlan::CollectMetadata(value) => buffer.push(if *value { 1 } else { 0 }),
            InfoVxlan::UDPCsum(value) => buffer.push(if *value { 1 } else { 0 }),
            InfoVxlan::UDPZeroCsumTX(value) => buffer.push(if *value { 1 } else { 0 }),
            InfoVxlan::UDPZeroCsumRX(value) => buffer.push(if *value { 1 } else { 0 }),
            InfoVxlan::RemCsumTX(value) => buffer.push(if *value { 1 } else { 0 }),
            InfoVxlan::RemCsumRX(value) => buffer.push(if *value { 1 } else { 0 }),
            InfoVxlan::TtlInherit(value) => buffer.push(if *value { 1 } else { 0 }),
            InfoVxlan::Group(b) => buffer.extend_from_slice(b.as_slice()),
            InfoVxlan::Local(b) => buffer.extend_from_slice(b.as_slice()),
            InfoVxlan::Group6(b) => buffer.extend_from_slice(b.as_slice()),
            InfoVxlan::Local6(b) => buffer.extend_from_slice(b.as_slice()),
            InfoVxlan::Port(value) => push_u16_be(buffer, *value),
            InfoVxlan::PortRange(lo, hi) => {
                push_u16_be(buffer, *lo);
                push_u16_be(buffer, *hi);
            },
            InfoVxlan::Other(nla) => buffer.extend_from_slice(nla.value.as_slice()),
        }
        assert(buffer@ =~= self@.value_bytes());
    }

    /// Decodes one raw record under the vxlan namespace.
    pub fn parse(nla: &DefaultNla) -> (r: Result<Self, DecodeError>)
        ensures
            match r {
                Ok(v) => parse_info_vxlan_spec(nla@) == Ok::<InfoVxlanView, DecodeError>(v@),
                Err(e) => parse_info_vxlan_spec(nla@) == Err::<InfoVxlanView, DecodeError>(e),
            },
    {
        let kind = nla.kind;
        let payload = &nla.value;
        if kind == IFLA_VXLAN_ID {
            match parse_u32(payload) {
                Ok(v) => Ok(InfoVxlan::Id(v)),
                Err(e) => Err(e),
            }
        } else if kind == IFLA_VXLAN_GROUP {
            if payload.len() == 4 {
                Ok(InfoVxlan::Group(clone_bytes(payload)))
            } else {
                Err(DecodeError::UnexpectedValueLength)
            }
        } else if kind == IFLA_VXLAN_LOCAL {
            if payload.len() == 4 {
                Ok(InfoVxlan::Local(clone_bytes(payload)))
            } else {
                Err(DecodeError::UnexpectedValueLength)
            }
        } else if kind == IFLA_VXLAN_GROUP6 {
            if payload.len() == 16 {
                Ok(InfoVxlan::Group6(clone_bytes(payload)))
            } else {
                Err(DecodeError::UnexpectedValueLength)
            }
        } else if kind == IFLA_VXLAN_LOCAL6 {
            if payload.len() == 16 {
                Ok(InfoVxlan::Local6(clone_bytes(payload)))
            } else {
                Err(DecodeError::UnexpectedValueLength)
            }
        } else if kind == IFLA_VXLAN_LINK {
            match parse_u32(payload) {
                Ok(v) => Ok(InfoVxlan::Link(v)),
                Err(e) => Err(e),
            }
        } else if kind == IFLA_VXLAN_TOS {
            match parse_u8(payload) {
                Ok(v) => Ok(InfoVxlan::Tos(v)),
                Err(e) => Err(e),
            }
        } else if kind == IFLA_VXLAN_TTL {
            match parse_u8(payload) {
                Ok(v) => Ok(InfoVxlan::Ttl(v)),
                Err(e) => Err(e),
            }
        } else if kind == IFLA_VXLAN_LABEL {
            match parse_u32(payload) {
                Ok(v) => Ok(InfoVxlan::Label(v)),
                Err(e) => Err(e),
            }
        } else if kind == IFLA_VXLAN_LEARNING {
            match parse_u8(payload) {
                Ok(v) => Ok(InfoVxlan::Learning(v > 0)),
                Err(e) => Err(e),
            }
        } else if kind == IFLA_VXLAN_AGEING {
            match parse_u32(payload) {
                Ok(v) => Ok(InfoVxlan::Ageing(v)),
                Err(e) => Err(e),
            }
        } else if kind == IFLA_VXLAN_LIMIT {
            match parse_u32(payload) {
                Ok(v) => Ok(InfoVxlan::Limit(v)),
                Err(e) => Err(e),
            }
        } else if kind == IFLA_VXLAN_PROXY {
            match parse_u8(payload) {
                Ok(v) => Ok(InfoVxlan::Proxy(v > 0)),
                Err(e) => Err(e),
            }
        } else if kind == IFLA_VXLAN_RSC {
            match parse_u8(payload) {
                Ok(v) => Ok(InfoVxlan::Rsc(v > 0)),
                Err(e) => Err(e),
            }
        } else if kind == IFLA_VXLAN_L2MISS {
            match parse_u8(payload) {
                Ok(v) => Ok(InfoVxlan::L2Miss(v > 0)),
                Err(e) => Err(e),
            }
        } else if kind == IFLA_VXLAN_L3MISS {
            match parse_u8(payload) {
                Ok(v) => Ok(InfoVxlan::L3Miss(v > 0)),
                Err(e) => Err(e),
            }
        } else if kind == IFLA_VXLAN_COLLECT_METADATA {
            match parse_u8(payload) {
                Ok(v) => Ok(InfoVxlan::CollectMetadata(v > 0)),
                Err(e) => Err(e),
            }
        } else if kind == IFLA_VXLAN_PORT_RANGE {
            if payload.len() == 4 {
                let lo_bytes = subvec(payload, 0, 2);
                let hi_bytes = subvec(payload, 2, 4);
                let low = match parse_u16_be(&lo_bytes) {
                    Ok(v) => v,
                    Err(e) => {
                        return Err(e);
                    },
                };
                let high = match parse_u16_be(&hi_bytes) {
                    Ok(v) => v,
                    Err(e) => {
                        return Err(e);
                    },
                };
                Ok(InfoVxlan::PortRange(low, high))
            } else {
                Err(DecodeError::UnexpectedValueLength)
            }
        } else if kind == IFLA_VXLAN_PORT {
            match parse_u16_be(payload) {
                Ok(v) => Ok(InfoVxlan::Port(v)),
                Err(e) => Err(e),
            }
        } else if kind == IFLA_VXLAN_UDP_CSUM {
            match parse_u8(payload) {
                Ok(v) => Ok(InfoVxlan::UDPCsum(v > 0)),
                Err(e) => Err(e),
            }
        } else if kind == IFLA_VXLAN_UDP_ZERO_CSUM6_TX {
            match parse_u8(payload) {
                Ok(v) => Ok(InfoVxlan::UDPZeroCsumTX(v > 0)),
                Err(e) => Err(e),
            }
        } else if kind == IFLA_VXLAN_UDP_ZERO_CSUM6_RX {
            match parse_u8(payload) {
                Ok(v) => Ok(InfoVxlan::UDPZeroCsumRX(v > 0)),
                Err(e) => Err(e),
            }
        } else if kind == IFLA_VXLAN_REMCSUM_TX {
            match parse_u8(payload) {
                Ok(v) => Ok(InfoVxlan::RemCsumTX(v > 0)),
                Err(e) => Err(e),
            }
        } else if kind == IFLA_VXLAN_REMCSUM_RX {
            match parse_u8(payload) {
                Ok(v) => Ok(InfoVxlan::RemCsumRX(v > 0)),
                Err(e) => Err(e),
            }
        } else if kind == IFLA_VXLAN_DF {
            match parse_u8(payload) {
                Ok(v) => Ok(InfoVxlan::Df(v)),
                Err(e) => Err(e),
            }
        } else if kind == IFLA_VXLAN_GBP {
            Ok(InfoVxlan::Gbp(true))
        } else if kind == IFLA_VXLAN_GPE {
            Ok(InfoVxlan::Gpe(true))
        } else if kind == IFLA_VXLAN_REMCSUM_NOPARTIAL {
            Ok(InfoVxlan::RemCsumNoPartial(true))
        } else if kind == IFLA_VXLAN_TTL_INHERIT {
            match parse_u8(payload) {
                Ok(v) => Ok(InfoVxlan::TtlInherit(v > 0)),
                Err(e) => Err(e),
            }
        } else if kind == IFLA_VXLAN_VNIFILTER {
            match parse_u8(payload) {
                Ok(v) => Ok(InfoVxlan::Vnifilter(v > 0)),
                Err(e) => Err(e),
            }
        } else if kind == IFLA_VXLAN_LOCALBYPASS {
            match parse_u8(payload) {
                Ok(v) => Ok(InfoVxlan::Localbypass(v > 0)),
                Err(e) => Err(e),
            }
        } else {
            Ok(InfoVxlan::Other(DefaultNla { kind, value: clone_bytes(payload) }))
        }
    }
}

/// Every known vxlan variant round-trips: emitting its kind and value and
/// decoding them again yields the very same variant.
pub proof fn lemma_info_vxlan_round_trip(v: InfoVxlanView)
    requires
        !(v is Other),
        v.wf(),
        v.canonical(),
    ensures
        parse_info_vxlan_spec(v.record()) == Ok::<InfoVxlanView, DecodeError>(v),
{
    lemma_auto_spec_u16_to_from_le_bytes();
    lemma_auto_spec_u32_to_from_le_bytes();
    match v {
        InfoVxlanView::Port(p) => {
            crate::bytes::lemma_u16_be_bytes_round_trip(p);
        },
        InfoVxlanView::PortRange(lo, hi) => {
            crate::bytes::lemma_u16_be_bytes_round_trip(lo);
            crate::bytes::lemma_u16_be_bytes_round_trip(hi);
            let bytes = spec_u16_to_be_bytes(lo) + spec_u16_to_be_bytes(hi);
            assert(bytes.subrange(0, 2) =~= spec_u16_to_be_bytes(lo));
            assert(bytes.subrange(2, 4) =~= spec_u16_to_be_bytes(hi));
        },
        _ => {},
    }
}

/// The records a sequence of vxlan attributes frames as.
pub open spec fn vxlan_records(vs: Seq<InfoVxlanView>) -> Seq<NlaData> {
    vs.map_values(|v: InfoVxlanView| v.record())
}

/// The attribute views of a parsed vxlan list.
pub open spec fn vxlan_views(vs: Seq<InfoVxlan>) -> Seq<InfoVxlanView> {
    vs.map_values(|v: InfoVxlan| v@)
}

/// What a raw record sequence decodes to under the vxlan namespace: each
/// record in order, or the first failure.
pub open spec fn parse_vxlan_records_spec(rs: Seq<NlaData>) -> Result<
    Seq<InfoVxlanView>,
    DecodeError,
>
    decreases rs.len(),
{
    if rs.len() == 0 {
        Ok(Seq::empty())
    } else {
        match parse_info_vxlan_spec(rs[0]) {
            Err(e) => Err(e),
            Ok(v) => match parse_vxlan_records_spec(rs.drop_first()) {
                Err(e) => Err(e),
                Ok(t) => Ok(seq![v] + t),
            },
        }
    }
}

/// What a blob decodes to under the vxlan namespace: its records, each
/// dispatched, or the first failure of either stage.
pub open spec fn parse_vxlan_list_spec(b: Seq<u8>) -> Result<Seq<InfoVxlanView>, DecodeError> {
    match crate::nla::parse_nlas_spec(b) {
        Err(e) => Err(e),
        Ok(rs) => parse_vxlan_records_spec(rs),
    }
}

/// Decodes a blob holding a vxlan sub-attribute stream.
pub fn parse_info_vxlan_list(data: &Vec<u8>) -> (r: Result<Vec<InfoVxlan>, DecodeError>)
    ensures
        match r {
            Ok(v) => parse_vxlan_list_spec(data@) == Ok::<Seq<InfoVxlanView>, DecodeError>(
                vxlan_views(v@),
            ),
            Err(e) => parse_vxlan_list_spec(data@) == Err::<Seq<InfoVxlanView>, DecodeError>(e),
        },
{
    let nlas = match crate::nla::parse_nlas(data) {
        Ok(v) => v,
        Err(e) => {
            return Err(e);
        },
    };
    let n = nlas.len();
    let mut acc: Vec<InfoVxlan> = Vec::new();
    let ghost all = crate::nla::nla_views(nlas@);
    proof {
        assert(all.skip(0) =~= all);
        match parse_vxlan_records_spec(all) {
            Ok(t) => {
                assert(vxlan_views(acc@) + t =~= t);
            },
            Err(_e) => {},
        }
    }
    let mut i: usize = 0;
    while i < n
        invariant
            i <= n,
            n == nlas@.len(),
            all == crate::nla::nla_views(nlas@),
            parse_vxlan_list_spec(data@) == parse_vxlan_records_spec(all),
            match parse_vxlan_records_spec(all.skip(i as int)) {
                Ok(t) => parse_vxlan_records_spec(all) == Ok::<Seq<InfoVxlanView>, DecodeError>(
                    vxlan_views(acc@) + t,
                ),
                Err(e) => parse_vxlan_records_spec(all) == Err::<Seq<InfoVxlanView>, DecodeError>(
                    e,
                ),
            },
        decreases n - i,
    {
        proof {
            assert(all.skip(i as int)[0] == all[i as int]);
            assert(all.skip(i as int).drop_first() =~= all.skip(i + 1));
            assert(all[i as int] == nlas@[i as int]@);
        }
        let v = match InfoVxlan::parse(&nlas[i]) {
            Ok(v) => v,
            Err(e) => {
                return Err(e);
            },
        };
        proof {
            match parse_vxlan_records_spec(all.skip(i + 1)) {
                Ok(t) => {
                    assert(vxlan_views(acc@.push(v)) =~= vxlan_views(acc@) + seq![v@]);
                    assert(vxlan_views(acc@) + (seq![v@] + t) =~= vxlan_views(acc@.push(v)) + t);
                },
                Err(_e) => {},
            }
        }
        acc.push(v);
        i += 1;
    }
    proof {
        assert(all.skip(n as int) =~= Seq::<NlaData>::empty());
        assert(vxlan_views(acc@) + Seq::<InfoVxlanView>::empty() =~= vxlan_views(acc@));
    }
    Ok(acc)
}

/// Frames an ordered vxlan attribute list as its exact wire bytes.
pub fn emit_info_vxlan_list(attrs: &Vec<InfoVxlan>) -> (out: Vec<u8>)
    requires
        forall|i: int| 0 <= i < attrs@.len() ==> (#[trigger] attrs@[i]@).wf(),
    ensures
        out@ == crate::nla::stream_emit_bytes(vxlan_records(vxlan_views(attrs@))),
{
    let n = attrs.len();
    let mut recs: Vec<DefaultNla> = Vec::new();
    let mut i: usize = 0;
    while i < n
        invariant
            i <= n,
            n == attrs@.len(),
            forall|j: int| 0 <= j < attrs@.len() ==> (#[trigger] attrs@[j]@).wf(),
            crate::nla::nla_views(recs@) =~= vxlan_records(vxlan_views(attrs@)).take(i as int),
        decreases n - i,
    {
        let vlen = attrs[i].value_len();
        let mut vbuf: Vec<u8> = vec![0u8; vlen];
        attrs[i].emit_value(&mut vbuf);
        let rec = DefaultNla { kind: attrs[i].kind(), value: vbuf };
        proof {
            assert(rec@ == attrs@[i as int]@.record());
            assert(vxlan_records(vxlan_views(attrs@)).take(i + 1) =~= vxlan_records(
                vxlan_views(attrs@),
            ).take(i as int).push(attrs@[i as int]@.record()));
            assert(crate::nla::nla_views(recs@.push(rec)) =~= crate::nla::nla_views(recs@).push(
                rec@,
            ));
        }
        recs.push(rec);
        i += 1;
    }
    proof {
        assert(vxlan_records(vxlan_views(attrs@)).take(n as int) =~= vxlan_records(
            vxlan_views(attrs@),
        ));
        assert forall|j: int| 0 <= j < recs@.len() implies crate::nla::nla_wf(
            #[trigger] recs@[j]@,
        ) by {
            lemma_auto_spec_u16_to_from_le_bytes();
            lemma_auto_spec_u32_to_from_le_bytes();
            assert(crate::nla::nla_views(recs@)[j] == recs@[j]@);
            assert(recs@[j]@ == vxlan_records(vxlan_views(attrs@))[j]);
            assert(recs@[j]@ == attrs@[j]@.record());
        }
    }
    crate::nla::emit_nlas(&recs)
}

/// A whole known, canonical vxlan attribute list round-trips through the
/// wire format: emitting the list and decoding the bytes again yields the
/// same list.
pub proof fn lemma_vxlan_list_round_trip(vs: Seq<InfoVxlanView>)
    requires
        forall|i: int|
            0 <= i < vs.len() ==> !((#[trigger] vs[i]) is Other) && vs[i].wf() && vs[i].canonical(),
    ensures
        parse_vxlan_list_spec(crate::nla::stream_emit_bytes(vxlan_records(vs))) == Ok::<
            Seq<InfoVxlanView>,
            DecodeError,
        >(vs),
{
    assert forall|i: int| 0 <= i < vxlan_records(vs).len() implies crate::nla::nla_wf(
        #[trigger] vxlan_records(vs)[i],
    ) by {
        lemma_auto_spec_u16_to_from_le_bytes();
        lemma_auto_spec_u32_to_from_le_bytes();
        assert(vxlan_records(vs)[i] == vs[i].record());
        assert(vs[i].wf());
        match vs[i] {
            InfoVxlanView::PortRange(lo, hi) => {
                crate::bytes::lemma_u16_be_bytes_round_trip(lo);
                crate::bytes::lemma_u16_be_bytes_round_trip(hi);
            },
            InfoVxlanView::Port(p) => {
                crate::bytes::lemma_u16_be_bytes_round_trip(p);
            },
            _ => {},
        }
    }
    crate::nla::lemma_parse_emit_stream(vxlan_records(vs));
    lemma_vxlan_records_round_trip(vs);
}

/// Dispatching the records a known, canonical list frames as yields the
/// list itself.
pub proof fn lemma_vxlan_records_round_trip(vs: Seq<InfoVxlanView>)
    requires
        forall|i: int|
            0 <= i < vs.len() ==> !((#[trigger] vs[i]) is Other) && vs[i].wf() && vs[i].canonical(),
    ensures
        parse_vxlan_records_spec(vxlan_records(vs)) == Ok::<Seq<InfoVxlanView>, DecodeError>(vs),
    decreases vs.len(),
{
    if vs.len() == 0 {
        assert(vxlan_records(vs).len() == 0);
        assert(vs =~= Seq::<InfoVxlanView>::empty());
    } else {
        lemma_info_vxlan_round_trip(vs[0]);
        assert(vxlan_records(vs)[0] == vs[0].record());
        assert(vxlan_records(vs).drop_first() =~= vxlan_records(vs.drop_first()));
        assert(forall|i: int|
            0 <= i < vs.drop_first().len() ==> !((#[trigger] vs.drop_first()[i]) is Other)
                && vs.drop_first()[i].wf() && vs.drop_first()[i].canonical());
        lemma_vxlan_records_round_trip(vs.drop_first());
        assert(seq![vs[0]] + vs.drop_first() =~= vs);
    }
}

} // verus!
