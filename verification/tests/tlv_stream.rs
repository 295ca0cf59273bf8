use netlink_codec::error::DecodeError;
use netlink_codec::nla::emit_nla_into;
use netlink_codec::nla::emit_nlas;
use netlink_codec::nla::nlas_buffer_len;
use netlink_codec::nla::parse_nlas;
use netlink_codec::nla::DefaultNla;

#[test]
fn empty_blob_is_empty_stream() {
    let buf: Vec<u8> = Vec::new();
    let records = parse_nlas(&buf).unwrap();
    assert_eq!(records.len(), 0);
}

#[test]
fn single_record_with_padding() {
    // length 5 covers the header and one value byte; three padding bytes
    // follow to the next four-byte boundary.
    let buf: Vec<u8> = vec![5, 0, 7, 0, 0xAB, 0, 0, 0];
    let records = parse_nlas(&buf).unwrap();
    assert_eq!(records.len(), 1);
    assert_eq!(records[0].kind(), 7);
    assert_eq!(records[0].value, vec![0xAB]);
}

#[test]
fn two_records_in_order_with_duplicate_kinds() {
    let buf: Vec<u8> = vec![
        8, 0, 3, 0, 1, 2, 3, 4, // kind 3, four value bytes
        8, 0, 3, 0, 5, 6, 7, 8, // the same kind again: kept, not merged
    ];
    let records = parse_nlas(&buf).unwrap();
    assert_eq!(records.len(), 2);
    assert_eq!(records[0].value, vec![1, 2, 3, 4]);
    assert_eq!(records[1].value, vec![5, 6, 7, 8]);
}

#[test]
fn sub_header_remainder_is_malformed() {
    let buf: Vec<u8> = vec![8, 0, 3, 0, 1, 2, 3, 4, 0xFF, 0xFF];
    assert_eq!(parse_nlas(&buf), Err(DecodeError::MalformedLength));
}

#[test]
fn length_below_header_is_malformed() {
    let buf: Vec<u8> = vec![3, 0, 1, 0];
    assert_eq!(parse_nlas(&buf), Err(DecodeError::MalformedLength));
}

#[test]
fn length_past_end_is_buffer_too_short() {
    // One record header claiming more bytes than remain: a decode failure,
    // never a truncated record.
    let buf: Vec<u8> = vec![12, 0, 1, 0, 1, 2, 3, 4];
    assert_eq!(parse_nlas(&buf), Err(DecodeError::BufferTooShort));
}

#[test]
fn emission_pads_to_four_bytes_with_zeros() {
    let nla = DefaultNla { kind: 9, value: vec![0xEE] };
    let mut out: Vec<u8> = Vec::new();
    emit_nla_into(&mut out, &nla);
    assert_eq!(out, vec![5, 0, 9, 0, 0xEE, 0, 0, 0]);
}

#[test]
fn emission_of_aligned_value_has_no_padding() {
    let nla = DefaultNla { kind: 1, value: vec![1, 2, 3, 4] };
    let mut out: Vec<u8> = Vec::new();
    emit_nla_into(&mut out, &nla);
    assert_eq!(out, vec![8, 0, 1, 0, 1, 2, 3, 4]);
}

#[test]
fn buffer_len_counts_padding_of_every_record() {
    let attrs = vec![
        DefaultNla { kind: 1, value: vec![1] },       // 5 -> 8 padded
        DefaultNla { kind: 2, value: vec![1, 2, 3] }, // 7 -> 8 padded
        DefaultNla { kind: 3, value: Vec::new() },    // 4 -> 4
    ];
    assert_eq!(nlas_buffer_len(&attrs), 20);
    assert_eq!(emit_nlas(&attrs).len(), 20);
}

#[test]
fn opaque_stream_round_trips_byte_for_byte() {
    let original: Vec<u8> = vec![
        6, 0, 0x30, 0x02, 0xDE, 0xAD, 0, 0, // unknown kind, zero padding
        5, 0, 0x99, 0x01, 0x7F, 0, 0, 0,
    ];
    let records = parse_nlas(&original).unwrap();
    assert_eq!(records.len(), 2);
    let reemitted = emit_nlas(&records);
    assert_eq!(reemitted, original);
}

#[test]
fn opaque_record_keeps_kind_and_value_verbatim() {
    let buf: Vec<u8> = vec![7, 0, 0xFE, 0xCA, 9, 8, 7, 0];
    let records = parse_nlas(&buf).unwrap();
    assert_eq!(records[0].kind(), 0xCAFE);
    assert_eq!(records[0].value_len(), 3);
    let mut value: Vec<u8> = vec![0; 3];
    records[0].emit_value(&mut value);
    assert_eq!(value, vec![9, 8, 7]);
}

#[test]
fn truncated_trailing_padding_is_accepted() {
    // The last record's value ends the blob; its padding is absent.
    let buf: Vec<u8> = vec![5, 0, 2, 0, 0x11];
    let records = parse_nlas(&buf).unwrap();
    assert_eq!(records.len(), 1);
    assert_eq!(records[0].value, vec![0x11]);
}
