//! Codec for the route-configuration netlink attribute encoding: a
//! type-length-value (TLV) byte format describing network interfaces,
//! addresses, neighbour-cache entries, neighbour-table parameters and
//! traffic-control configuration.
//!
//! Raw byte blobs are cut into attribute records by the TLV stream reader
//! in [`nla`]; each per-domain family module turns a raw record into a
//! typed variant (or keeps it opaque) and back into exact wire bytes.

pub mod address;
pub mod af_spec;
pub mod bond_port;
pub mod bytes;
pub mod error;
pub mod family;
pub mod link;
pub mod link_info;
pub mod neighbour;
pub mod neighbour_table;
pub mod ipvlan;
pub mod nla;
pub mod tc;
pub mod vxlan;
