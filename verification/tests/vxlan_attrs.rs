use netlink_codec::error::DecodeError;
use netlink_codec::nla::DefaultNla;
use netlink_codec::vxlan::emit_info_vxlan_list;
use netlink_codec::vxlan::parse_info_vxlan_list;
use netlink_codec::vxlan::InfoVxlan;

#[test]
fn vxlan_stream_parses_id_and_learning() {
    let buf: Vec<u8> = vec![
        8, 0, 1, 0, 42, 0, 0, 0, // Id record, four-byte value 42
        5, 0, 7, 0, 1, 0, 0, 0, // Learning record, one byte, three padding
    ];
    let attrs = parse_info_vxlan_list(&buf).unwrap();
    assert_eq!(attrs, vec![InfoVxlan::Id(42), InfoVxlan::Learning(true)]);
}

#[test]
fn vxlan_stream_reemits_identical_bytes() {
    // The Id record spans eight bytes; the Learning record's single byte is
    // followed by three zero padding bytes, so it spans eight as well.
    let attrs = vec![InfoVxlan::Id(42), InfoVxlan::Learning(true)];
    let out = emit_info_vxlan_list(&attrs);
    assert_eq!(out, vec![8, 0, 1, 0, 42, 0, 0, 0, 5, 0, 7, 0, 1, 0, 0, 0]);
}

#[test]
fn vxlan_port_is_big_endian() {
    let nla = DefaultNla { kind: 15, value: vec![0x12, 0x34] };
    let parsed = InfoVxlan::parse(&nla).unwrap();
    assert_eq!(parsed, InfoVxlan::Port(0x1234));
    let mut value: Vec<u8> = vec![0; parsed.value_len()];
    parsed.emit_value(&mut value);
    assert_eq!(value, vec![0x12, 0x34]);
}

#[test]
fn vxlan_port_range_round_trips() {
    let nla = DefaultNla { kind: 10, value: vec![0x10, 0x00, 0x20, 0x00] };
    let parsed = InfoVxlan::parse(&nla).unwrap();
    assert_eq!(parsed, InfoVxlan::PortRange(0x1000, 0x2000));
    let mut value: Vec<u8> = vec![0; 4];
    parsed.emit_value(&mut value);
    assert_eq!(value, vec![0x10, 0x00, 0x20, 0x00]);
}

#[test]
fn vxlan_group_wrong_length_fails() {
    let nla = DefaultNla { kind: 2, value: vec![192, 168, 1] };
    assert_eq!(InfoVxlan::parse(&nla), Err(DecodeError::UnexpectedValueLength));
}

#[test]
fn vxlan_group6_needs_sixteen_octets() {
    let nla = DefaultNla { kind: 16, value: vec![0; 15] };
    assert_eq!(InfoVxlan::parse(&nla), Err(DecodeError::UnexpectedValueLength));
    let nla = DefaultNla { kind: 16, value: vec![0; 16] };
    assert_eq!(InfoVxlan::parse(&nla), Ok(InfoVxlan::Group6(vec![0; 16])));
}

#[test]
fn vxlan_group_round_trips() {
    let nla = DefaultNla { kind: 2, value: vec![224, 0, 0, 1] };
    let parsed = InfoVxlan::parse(&nla).unwrap();
    assert_eq!(parsed, InfoVxlan::Group(vec![224, 0, 0, 1]));
    assert_eq!(parsed.kind(), 2);
    let mut value: Vec<u8> = vec![0; 4];
    parsed.emit_value(&mut value);
    assert_eq!(value, vec![224, 0, 0, 1]);
}

#[test]
fn vxlan_unknown_kind_is_opaque() {
    let nla = DefaultNla { kind: 200, value: vec![1, 2, 3] };
    let parsed = InfoVxlan::parse(&nla).unwrap();
    assert_eq!(parsed, InfoVxlan::Other(DefaultNla { kind: 200, value: vec![1, 2, 3] }));
}

#[test]
fn vxlan_presence_kind_reads_true_and_emits_nothing() {
    let nla = DefaultNla { kind: 23, value: Vec::new() };
    let parsed = InfoVxlan::parse(&nla).unwrap();
    assert_eq!(parsed, InfoVxlan::Gbp(true));
    assert_eq!(parsed.value_len(), 0);
    let mut value: Vec<u8> = Vec::new();
    parsed.emit_value(&mut value);
    assert_eq!(value, Vec::<u8>::new());
}

#[test]
fn vxlan_boolean_nonzero_reads_true() {
    let nla = DefaultNla { kind: 11, value: vec![0xFF] };
    assert_eq!(InfoVxlan::parse(&nla), Ok(InfoVxlan::Proxy(true)));
    let nla = DefaultNla { kind: 11, value: vec![0] };
    assert_eq!(InfoVxlan::parse(&nla), Ok(InfoVxlan::Proxy(false)));
}

#[test]
fn vxlan_scalar_wrong_width_fails() {
    let nla = DefaultNla { kind: 1, value: vec![1, 2] };
    assert_eq!(InfoVxlan::parse(&nla), Err(DecodeError::UnparseableScalar));
}

#[test]
fn vxlan_list_round_trips_many_variants() {
    let attrs = vec![
        InfoVxlan::Id(0xDEAD),
        InfoVxlan::Group(vec![239, 1, 1, 1]),
        InfoVxlan::Ttl(64),
        InfoVxlan::Port(4789),
        InfoVxlan::PortRange(2000, 3000),
        InfoVxlan::Local6(vec![0xFE; 16]),
        InfoVxlan::Learning(false),
        InfoVxlan::Gbp(true),
        InfoVxlan::Other(DefaultNla { kind: 77, value: vec![5, 6] }),
    ];
    let out = emit_info_vxlan_list(&attrs);
    let parsed = parse_info_vxlan_list(&out).unwrap();
    assert_eq!(parsed, attrs);
}
