use netlink_codec::bond_port::BondPortState;
use netlink_codec::bond_port::InfoBondPort;
use netlink_codec::bond_port::MiiStatus;
use netlink_codec::error::DecodeError;
use netlink_codec::ipvlan::InfoIpVlan;
use netlink_codec::ipvlan::InfoIpVtap;
use netlink_codec::ipvlan::IpVlanFlags;
use netlink_codec::ipvlan::IpVlanMode;
use netlink_codec::nla::DefaultNla;

#[test]
fn bond_port_state_forward_compat() {
    // An out-of-range code decodes to the explicit escape and re-encodes
    // to the original raw code.
    assert_eq!(BondPortState::from(7u8), BondPortState::Other(7));
    assert_eq!(u8::from(BondPortState::Other(7)), 7);
    assert_eq!(BondPortState::from(0u8), BondPortState::Active);
    assert_eq!(BondPortState::from(1u8), BondPortState::Backup);
    assert_eq!(u8::from(BondPortState::Active), 0);
    assert_eq!(u8::from(BondPortState::Backup), 1);
}

#[test]
fn mii_status_forward_compat() {
    assert_eq!(MiiStatus::from(200u8), MiiStatus::Other(200));
    assert_eq!(u8::from(MiiStatus::Other(200)), 200);
    assert_eq!(MiiStatus::from(0u8), MiiStatus::Up);
    assert_eq!(MiiStatus::from(1u8), MiiStatus::GoingDown);
    assert_eq!(MiiStatus::from(2u8), MiiStatus::Down);
    assert_eq!(MiiStatus::from(3u8), MiiStatus::GoingBack);
}

#[test]
fn bond_port_known_variants_round_trip() {
    let cases = vec![
        InfoBondPort::LinkFailureCount(5),
        InfoBondPort::MiiStatus(MiiStatus::Down),
        InfoBondPort::PermHwaddr(vec![1, 2, 3, 4, 5, 6]),
        InfoBondPort::Prio(-7),
        InfoBondPort::QueueId(9),
        InfoBondPort::BondPortState(BondPortState::Backup),
    ];
    for attr in cases {
        let mut value: Vec<u8> = vec![0; attr.value_len()];
        attr.emit_value(&mut value);
        let nla = DefaultNla { kind: attr.kind(), value };
        assert_eq!(InfoBondPort::parse(&nla).unwrap(), attr);
    }
}

#[test]
fn bond_port_prio_exact_bytes() {
    let attr = InfoBondPort::Prio(-1);
    let mut value: Vec<u8> = vec![0; 4];
    attr.emit_value(&mut value);
    assert_eq!(value, vec![0xFF, 0xFF, 0xFF, 0xFF]);
}

#[test]
fn bond_port_scalar_wrong_width_fails() {
    let nla = DefaultNla { kind: 3, value: vec![1, 2] };
    assert_eq!(InfoBondPort::parse(&nla), Err(DecodeError::UnparseableScalar));
    let nla = DefaultNla { kind: 5, value: vec![1, 2, 3] };
    assert_eq!(InfoBondPort::parse(&nla), Err(DecodeError::UnparseableScalar));
}

#[test]
fn bond_port_unknown_kind_is_opaque() {
    let nla = DefaultNla { kind: 100, value: vec![9] };
    assert_eq!(
        InfoBondPort::parse(&nla).unwrap(),
        InfoBondPort::Other(DefaultNla { kind: 100, value: vec![9] })
    );
}

#[test]
fn ipvlan_mode_forward_compat() {
    assert_eq!(IpVlanMode::from(9u16), IpVlanMode::Other(9));
    assert_eq!(u16::from(IpVlanMode::Other(9)), 9);
    assert_eq!(IpVlanMode::from(0u16), IpVlanMode::L2);
    assert_eq!(IpVlanMode::from(1u16), IpVlanMode::L3);
    assert_eq!(IpVlanMode::from(2u16), IpVlanMode::L3S);
}

#[test]
fn ipvlan_mode_round_trip() {
    let attr = InfoIpVlan::Mode(IpVlanMode::L3S);
    let mut value: Vec<u8> = vec![0; attr.value_len()];
    attr.emit_value(&mut value);
    assert_eq!(value, vec![2, 0]);
    let nla = DefaultNla { kind: attr.kind(), value };
    assert_eq!(InfoIpVlan::parse(&nla).unwrap(), attr);
}

#[test]
fn ipvlan_flags_retain_unrecognized_bits() {
    // Bits outside the named set survive a decode and re-encode unchanged.
    let nla = DefaultNla { kind: 2, value: vec![0xCB, 0xFF] };
    let parsed = InfoIpVlan::parse(&nla).unwrap();
    assert_eq!(parsed, InfoIpVlan::Flags(IpVlanFlags::from_bits_retain(0xFFCB)));
    let mut value: Vec<u8> = vec![0; 2];
    parsed.emit_value(&mut value);
    assert_eq!(value, vec![0xCB, 0xFF]);
}

#[test]
fn ipvlan_flags_named_bits() {
    let f = IpVlanFlags::from_bits_retain(0x03);
    assert!(f.is_private());
    assert!(f.is_vepa());
    assert_eq!(f.bits(), 3);
    assert_eq!(IpVlanFlags::default(), IpVlanFlags::empty());
}

#[test]
fn ipvlan_unknown_kind_is_opaque() {
    let nla = DefaultNla { kind: 50, value: vec![1, 2, 3] };
    assert_eq!(
        InfoIpVlan::parse(&nla).unwrap(),
        InfoIpVlan::Other(DefaultNla { kind: 50, value: vec![1, 2, 3] })
    );
}

#[test]
fn ipvlan_mode_wrong_width_fails() {
    let nla = DefaultNla { kind: 1, value: vec![1] };
    assert_eq!(InfoIpVlan::parse(&nla), Err(DecodeError::UnparseableScalar));
}

#[test]
fn ipvtap_mirrors_ipvlan_namespace() {
    let attr = InfoIpVtap::Mode(IpVlanMode::L2);
    let mut value: Vec<u8> = vec![0; attr.value_len()];
    attr.emit_value(&mut value);
    let nla = DefaultNla { kind: attr.kind(), value };
    assert_eq!(InfoIpVtap::parse(&nla).unwrap(), attr);
    let flags = InfoIpVtap::Flags(IpVlanFlags::from_bits_retain(0xA5A5));
    let mut value: Vec<u8> = vec![0; 2];
    flags.emit_value(&mut value);
    let nla = DefaultNla { kind: 2, value };
    assert_eq!(InfoIpVtap::parse(&nla).unwrap(), flags);
}
