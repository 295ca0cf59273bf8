//! Link-info data containers. A link-info block names its driver kind
//! ("vxlan", "ipvlan", ...); only that name resolves the numeric kind
//! codes of the block's data value, exactly as a traffic-control container
//! is gated by its discipline kind. An unknown driver name keeps the whole
//! value as one undifferentiated byte blob, since the format gives no
//! generic way to sub-split an unknown driver's data. Port data is gated
//! the same way by the port kind one level up.

use vstd::prelude::*;

use crate::bond_port::bond_port_records;
use crate::bond_port::bond_port_views;
use crate::bond_port::emit_info_bond_port_list;
use crate::bond_port::parse_bond_port_list_spec;
use crate::bond_port::parse_info_bond_port_list;
use crate::bond_port::InfoBondPort;
use crate::bond_port::InfoBondPortView;
use crate::bytes::clone_bytes;
use crate::error::DecodeError;
use crate::ipvlan::emit_info_ipvlan_list;
use crate::ipvlan::emit_info_ipvtap_list;
use crate::ipvlan::ipvlan_records;
use crate::ipvlan::ipvlan_views;
use crate::ipvlan::ipvtap_records;
use crate::ipvlan::ipvtap_views;
use crate::ipvlan::parse_info_ipvlan_list;
use crate::ipvlan::parse_info_ipvtap_list;
use crate::ipvlan::parse_ipvlan_list_spec;
use crate::ipvlan::parse_ipvtap_list_spec;
use crate::ipvlan::InfoIpVlan;
use crate::ipvlan::InfoIpVlanView;
use crate::ipvlan::InfoIpVtap;
use crate::ipvlan::InfoIpVtapView;
use crate::nla::stream_emit_bytes;
use crate::tc::str_eq;
use crate::vxlan::emit_info_vxlan_list;
use crate::vxlan::parse_info_vxlan_list;
use crate::vxlan::parse_vxlan_list_spec;
use crate::vxlan::vxlan_records;
use crate::vxlan::vxlan_views;
use crate::vxlan::InfoVxlan;
use crate::vxlan::InfoVxlanView;

verus! {

/// The decoded data value of a link-info block: the typed sub-attribute
/// list of a known driver, or the raw value of an unknown one.
#[derive(Debug, PartialEq, Eq, Clone)]
pub enum InfoData {
    Vxlan(Vec<InfoVxlan>),
    IpVlan(Vec<InfoIpVlan>),
    IpVtap(Vec<InfoIpVtap>),
    Other(Vec<u8>),
}

/// Mathematical form of a link-info data value.
pub enum InfoDataView {
    Vxlan(Seq<InfoVxlanView>),
    IpVlan(Seq<InfoIpVlanView>),
    IpVtap(Seq<InfoIpVtapView>),
    Other(Seq<u8>),
}

impl View for InfoData {
    type V = InfoDataView;

    open spec fn view(&self) -> InfoDataView {
        match self {
            InfoData::Vxlan(v) => InfoDataView::Vxlan(vxlan_views(v@)),
            InfoData::IpVlan(v) => InfoDataView::IpVlan(ipvlan_views(v@)),
            InfoData::IpVtap(v) => InfoDataView::IpVtap(ipvtap_views(v@)),
            InfoData::Other(b) => InfoDataView::Other(b@),
        }
    }
}

impl InfoDataView {
    /// The exact wire bytes this data value serializes to.
    pub open spec fn wire_bytes(self) -> Seq<u8> {
        match self {
            InfoDataView::Vxlan(v) => stream_emit_bytes(vxlan_records(v)),
            InfoDataView::IpVlan(v) => stream_emit_bytes(ipvlan_records(v)),
            InfoDataView::IpVtap(v) => stream_emit_bytes(ipvtap_records(v)),
            InfoDataView::Other(b) => b,
        }
    }
}

/// Every attribute a data value holds can be framed.
pub open spec fn info_data_wf(d: InfoData) -> bool {
    match d {
        InfoData::Vxlan(v) => forall|i: int| 0 <= i < v@.len() ==> (#[trigger] v@[i]@).wf(),
        InfoData::IpVlan(v) => forall|i: int| 0 <= i < v@.len() ==> (#[trigger] v@[i]@).wf(),
        InfoData::IpVtap(v) => forall|i: int| 0 <= i < v@.len() ==> (#[trigger] v@[i]@).wf(),
        InfoData::Other(_) => true,
    }
}

/// The driver kinds whose data namespaces this codec models.
pub open spec fn known_info_kind(kind: Seq<char>) -> bool {
    ||| kind == "vxlan"@
    ||| kind == "ipvlan"@
    ||| kind == "ipvtap"@
}

/// What a link-info data value decodes to under a driver kind: the typed
/// sub-attribute list of a known driver, the raw value otherwise.
pub open spec fn parse_info_data_spec(kind: Seq<char>, b: Seq<u8>) -> Result<
    InfoDataView,
    DecodeError,
> {
    if kind == "vxlan"@ {
        match parse_vxlan_list_spec(b) {
            Err(e) => Err(e),
            Ok(v) => Ok(InfoDataView::Vxlan(v)),
        }
    } else if kind == "ipvlan"@ {
        match parse_ipvlan_list_spec(b) {
            Err(e) => Err(e),
            Ok(v) => Ok(InfoDataView::IpVlan(v)),
        }
    } else if kind == "ipvtap"@ {
        match parse_ipvtap_list_spec(b) {
            Err(e) => Err(e),
            Ok(v) => Ok(InfoDataView::IpVtap(v)),
        }
    } else {
        Ok(InfoDataView::Other(b))
    }
}

/// Decodes a link-info data value under its driver kind.
pub fn parse_info_data(kind: &str, data: &Vec<u8>) -> (r: Result<InfoData, DecodeError>)
    ensures
        match r {
            Ok(v) => parse_info_data_spec(kind@, data@) == Ok::<InfoDataView, DecodeError>(v@),
            Err(e) => parse_info_data_spec(kind@, data@) == Err::<InfoDataView, DecodeError>(e),
        },
{
    if str_eq(kind, "vxlan") {
        match parse_info_vxlan_list(data) {
            Ok(v) => Ok(InfoData::Vxlan(v)),
            Err(e) => Err(e),
        }
    } else if str_eq(kind, "ipvlan") {
        match parse_info_ipvlan_list(data) {
            Ok(v) => Ok(InfoData::IpVlan(v)),
            Err(e) => Err(e),
        }
    } else if str_eq(kind, "ipvtap") {
        match parse_info_ipvtap_list(data) {
            Ok(v) => Ok(InfoData::IpVtap(v)),
            Err(e) => Err(e),
        }
    } else {
        Ok(InfoData::Other(clone_bytes(data)))
    }
}

impl InfoData {
    /// Frames this data value as its exact wire bytes.
    pub fn emit(&self) -> (out: Vec<u8>)
        requires
            info_data_wf(*self),
        ensures
            out@ == self@.wire_bytes(),
    {
        match self {
            InfoData::Vxlan(v) => emit_info_vxlan_list(v),
            InfoData::IpVlan(v) => emit_info_ipvlan_list(v),
            InfoData::IpVtap(v) => emit_info_ipvtap_list(v),
            InfoData::Other(b) => clone_bytes(b),
        }
    }
}

/// The decoded port data of a link-info block, gated by the port kind.
#[derive(Debug, PartialEq, Eq, Clone)]
pub enum InfoPortData {
    BondPort(Vec<InfoBondPort>),
    Other(Vec<u8>),
}

/// Mathematical form of a link-info port-data value.
pub enum InfoPortDataView {
    BondPort(Seq<InfoBondPortView>),
    Other(Seq<u8>),
}

impl View for InfoPortData {
    type V = InfoPortDataView;

    open spec fn view(&self) -> InfoPortDataView {
        match self {
            InfoPortData::BondPort(v) => InfoPortDataView::BondPort(bond_port_views(v@)),
            InfoPortData::Other(b) => InfoPortDataView::Other(b@),
        }
    }
}

impl InfoPortDataView {
    /// The exact wire bytes this port-data value serializes to.
    pub open spec fn wire_bytes(self) -> Seq<u8> {
        match self {
            InfoPortDataView::BondPort(v) => stream_emit_bytes(bond_port_records(v)),
            InfoPortDataView::Other(b) => b,
        }
    }
}

/// Every attribute a port-data value holds can be framed.
pub open spec fn info_port_data_wf(d: InfoPortData) -> bool {
    match d {
        InfoPortData::BondPort(v) => forall|i: int|
            0 <= i < v@.len() ==> (#[trigger] v@[i]@).wf(),
        InfoPortData::Other(_) => true,
    }
}

/// What a link-info port-data value decodes to under a port kind.
pub open spec fn parse_info_port_data_spec(kind: Seq<char>, b: Seq<u8>) -> Result<
    InfoPortDataView,
    DecodeError,
> {
    if kind == "bond"@ {
        match parse_bond_port_list_spec(b) {
            Err(e) => Err(e),
            Ok(v) => Ok(InfoPortDataView::BondPort(v)),
        }
    } else {
        Ok(InfoPortDataView::Other(b))
    }
}

/// Decodes a link-info port-data value under its port kind.
pub fn parse_info_port_data(kind: &str, data: &Vec<u8>) -> (r: Result<InfoPortData, DecodeError>)
    ensures
        match r {
            Ok(v) => parse_info_port_data_spec(kind@, data@) == Ok::<InfoPortDataView, DecodeError>(
                v@,
            ),
            Err(e) => parse_info_port_data_spec(kind@, data@) == Err::<
                InfoPortDataView,
                DecodeError,
            >(e),
        },
{
    if str_eq(kind, "bond") {
        match parse_info_bond_port_list(data) {
            Ok(v) => Ok(InfoPortData::BondPort(v)),
            Err(e) => Err(e),
        }
    } else {
        Ok(InfoPortData::Other(clone_bytes(data)))
    }
}

impl InfoPortData {
    /// Frames this port-data value as its exact wire bytes.
    pub fn emit(&self) -> (out: Vec<u8>)
        requires
            info_port_data_wf(*self),
        ensures
            out@ == self@.wire_bytes(),
    {
        match self {
            InfoPortData::BondPort(v) => emit_info_bond_port_list(v),
            InfoPortData::Other(b) => clone_bytes(b),
        }
    }
}

/// Driver-kind gating of link-info data: a known driver kind decodes the
/// value into its typed sub-attribute list; an unknown kind keeps the
/// whole value as one undifferentiated blob.
pub proof fn lemma_info_data_driver_kind_gating(kind: Seq<char>, b: Seq<u8>)
    ensures
        !known_info_kind(kind) ==> parse_info_data_spec(kind, b) == Ok::<
            InfoDataView,
            DecodeError,
        >(InfoDataView::Other(b)),
        kind == "vxlan"@ && parse_vxlan_list_spec(b) is Ok ==> parse_info_data_spec(kind, b)
            == Ok::<InfoDataView, DecodeError>(
            InfoDataView::Vxlan(parse_vxlan_list_spec(b)->Ok_0),
        ),
{
}

} // verus!
