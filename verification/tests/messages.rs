use netlink_codec::error::DecodeError;
use netlink_codec::family::AddressFamily;
use netlink_codec::link::LinkAttribute;
use netlink_codec::link::LinkHeader;
use netlink_codec::link::LinkMessage;
use netlink_codec::neighbour::NeighbourAttribute;
use netlink_codec::neighbour::NeighbourHeader;
use netlink_codec::neighbour::NeighbourMessage;
use netlink_codec::neighbour_table::NeighbourTableAttribute;
use netlink_codec::neighbour_table::NeighbourTableHeader;
use netlink_codec::neighbour_table::NeighbourTableMessage;
use netlink_codec::nla::DefaultNla;

#[test]
fn link_message_round_trips() {
    let msg = LinkMessage {
        header: LinkHeader {
            interface_family: AddressFamily::Inet,
            link_layer_type: 1,
            index: 3,
            flags: 0x1002,
            change_mask: 0xFFFF_FFFF,
        },
        attributes: vec![
            LinkAttribute::Other(DefaultNla { kind: 3, value: vec![b'e', b't', b'h', b'0', 0] }),
            LinkAttribute::Other(DefaultNla { kind: 4, value: vec![0xDC, 5, 0, 0] }),
        ],
    };
    let mut buf: Vec<u8> = vec![0; msg.buffer_len()];
    msg.emit(&mut buf);
    let parsed = LinkMessage::parse(&buf).unwrap();
    assert_eq!(parsed, msg);
}

#[test]
fn link_message_header_layout() {
    let msg = LinkMessage {
        header: LinkHeader {
            interface_family: AddressFamily::Inet6,
            link_layer_type: 0x0304,
            index: 0x0A0B0C0D,
            flags: 0,
            change_mask: 0,
        },
        attributes: Vec::new(),
    };
    let mut buf: Vec<u8> = vec![0; msg.buffer_len()];
    msg.emit(&mut buf);
    assert_eq!(buf.len(), 16);
    assert_eq!(buf[0], 10); // family code
    assert_eq!(buf[1], 0); // reserved
    assert_eq!(&buf[2..4], &[0x04, 0x03]); // link-layer type, native order
    assert_eq!(&buf[4..8], &[0x0D, 0x0C, 0x0B, 0x0A]); // index, native order
}

#[test]
fn link_message_short_buffer_fails() {
    let buf: Vec<u8> = vec![0; 10];
    assert_eq!(LinkMessage::parse(&buf), Err(DecodeError::BufferTooShort));
}

#[test]
fn link_message_malformed_attribute_aborts_whole_parse() {
    let mut buf: Vec<u8> = vec![0; 16];
    buf.extend_from_slice(&[3, 0, 1, 0]); // record length below the header size
    assert_eq!(LinkMessage::parse(&buf), Err(DecodeError::MalformedLength));
}

#[test]
fn link_message_preserves_attribute_order_and_duplicates() {
    let mut buf: Vec<u8> = vec![0; 16];
    buf[0] = 2;
    buf.extend_from_slice(&[5, 0, 9, 0, 1, 0, 0, 0]);
    buf.extend_from_slice(&[5, 0, 9, 0, 2, 0, 0, 0]);
    let parsed = LinkMessage::parse(&buf).unwrap();
    assert_eq!(parsed.header.interface_family, AddressFamily::Inet);
    assert_eq!(
        parsed.attributes,
        vec![
            LinkAttribute::Other(DefaultNla { kind: 9, value: vec![1] }),
            LinkAttribute::Other(DefaultNla { kind: 9, value: vec![2] }),
        ]
    );
}

#[test]
fn neighbour_message_round_trips() {
    let msg = NeighbourMessage {
        header: NeighbourHeader {
            family: AddressFamily::Inet6,
            ifindex: 7,
            state: 0x80,
            flags: 2,
            kind: 1,
        },
        attributes: vec![NeighbourAttribute::Other(DefaultNla {
            kind: 1,
            value: vec![10, 0, 0, 1],
        })],
    };
    let mut buf: Vec<u8> = vec![0; msg.buffer_len()];
    msg.emit(&mut buf);
    assert_eq!(buf.len(), 12 + 8);
    let parsed = NeighbourMessage::parse(&buf).unwrap();
    assert_eq!(parsed, msg);
}

#[test]
fn neighbour_header_layout() {
    let msg = NeighbourMessage {
        header: NeighbourHeader {
            family: AddressFamily::Other(42),
            ifindex: 0x01020304,
            state: 0x4040,
            flags: 0x11,
            kind: 0x22,
        },
        attributes: Vec::new(),
    };
    let mut buf: Vec<u8> = vec![0; msg.buffer_len()];
    msg.emit(&mut buf);
    assert_eq!(
        buf,
        vec![42, 0, 0, 0, 0x04, 0x03, 0x02, 0x01, 0x40, 0x40, 0x11, 0x22]
    );
}

#[test]
fn neighbour_message_short_buffer_fails() {
    let buf: Vec<u8> = vec![0; 11];
    assert_eq!(NeighbourMessage::parse(&buf), Err(DecodeError::BufferTooShort));
}

#[test]
fn neighbour_table_message_round_trips() {
    let msg = NeighbourTableMessage {
        header: NeighbourTableHeader { family: AddressFamily::Unspec },
        attributes: vec![
            NeighbourTableAttribute::Other(DefaultNla { kind: 1, value: vec![b'a', b'r', b'p'] }),
        ],
    };
    let mut buf: Vec<u8> = vec![0; msg.buffer_len()];
    msg.emit(&mut buf);
    assert_eq!(buf.len(), 4 + 8);
    let parsed = NeighbourTableMessage::parse(&buf).unwrap();
    assert_eq!(parsed, msg);
}

#[test]
fn neighbour_table_record_too_long_fails() {
    let mut buf: Vec<u8> = vec![0; 4];
    buf.extend_from_slice(&[20, 0, 1, 0, 1, 2, 3, 4]);
    assert_eq!(
        NeighbourTableMessage::parse(&buf),
        Err(DecodeError::BufferTooShort)
    );
}

#[test]
fn address_family_forward_compat() {
    assert_eq!(AddressFamily::from(42u8), AddressFamily::Other(42));
    assert_eq!(u8::from(AddressFamily::Other(42)), 42);
    assert_eq!(AddressFamily::from(0u8), AddressFamily::Unspec);
    assert_eq!(AddressFamily::from(2u8), AddressFamily::Inet);
    assert_eq!(AddressFamily::from(10u8), AddressFamily::Inet6);
}
