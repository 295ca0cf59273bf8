use netlink_codec::bond_port::BondPortState;
use netlink_codec::bond_port::InfoBondPort;
use netlink_codec::error::DecodeError;
use netlink_codec::ipvlan::InfoIpVlan;
use netlink_codec::ipvlan::IpVlanFlags;
use netlink_codec::ipvlan::IpVlanMode;
use netlink_codec::link_info::parse_info_data;
use netlink_codec::link_info::parse_info_port_data;
use netlink_codec::link_info::InfoData;
use netlink_codec::link_info::InfoPortData;
use netlink_codec::vxlan::InfoVxlan;

#[test]
fn vxlan_driver_kind_decodes_typed_data() {
    let buf: Vec<u8> = vec![8, 0, 1, 0, 42, 0, 0, 0, 5, 0, 7, 0, 1, 0, 0, 0];
    let data = parse_info_data("vxlan", &buf).unwrap();
    assert_eq!(
        data,
        InfoData::Vxlan(vec![InfoVxlan::Id(42), InfoVxlan::Learning(true)])
    );
    assert_eq!(data.emit(), buf);
}

#[test]
fn ipvlan_driver_kind_decodes_typed_data() {
    let buf: Vec<u8> = vec![6, 0, 1, 0, 1, 0, 0, 0, 6, 0, 2, 0, 0xCB, 0xFF, 0, 0];
    let data = parse_info_data("ipvlan", &buf).unwrap();
    assert_eq!(
        data,
        InfoData::IpVlan(vec![
            InfoIpVlan::Mode(IpVlanMode::L3),
            InfoIpVlan::Flags(IpVlanFlags::from_bits_retain(0xFFCB)),
        ])
    );
    assert_eq!(data.emit(), buf);
}

#[test]
fn unknown_driver_kind_keeps_raw_data() {
    let buf: Vec<u8> = vec![8, 0, 1, 0, 42, 0, 0, 0];
    let data = parse_info_data("dummy", &buf).unwrap();
    assert_eq!(data, InfoData::Other(buf.clone()));
    assert_eq!(data.emit(), buf);
}

#[test]
fn vxlan_driver_kind_fails_on_malformed_data() {
    let buf: Vec<u8> = vec![3, 0, 1, 0];
    assert_eq!(parse_info_data("vxlan", &buf), Err(DecodeError::MalformedLength));
}

#[test]
fn bond_port_kind_decodes_typed_port_data() {
    let buf: Vec<u8> = vec![5, 0, 1, 0, 1, 0, 0, 0, 8, 0, 3, 0, 2, 0, 0, 0];
    let data = parse_info_port_data("bond", &buf).unwrap();
    assert_eq!(
        data,
        InfoPortData::BondPort(vec![
            InfoBondPort::BondPortState(BondPortState::Backup),
            InfoBondPort::LinkFailureCount(2),
        ])
    );
    assert_eq!(data.emit(), buf);
}

#[test]
fn unknown_port_kind_keeps_raw_port_data() {
    let buf: Vec<u8> = vec![1, 2, 3];
    let data = parse_info_port_data("team", &buf).unwrap();
    assert_eq!(data, InfoPortData::Other(vec![1, 2, 3]));
}
