use netlink_codec::error::DecodeError;
use netlink_codec::nla::DefaultNla;
use netlink_codec::tc::str_eq;
use netlink_codec::tc::TcOption;
use netlink_codec::tc::VecTcOption;

#[test]
fn known_kind_decodes_typed_option_list() {
    // A container owned by the fq_codel discipline: its value is itself a
    // record stream, split and tagged record by record.
    let inner: Vec<u8> = vec![
        8, 0, 1, 0, 0x10, 0x27, 0, 0, // first option record
        5, 0, 4, 0, 1, 0, 0, 0, // second option record, padded
    ];
    let container = DefaultNla { kind: 2, value: inner };
    let VecTcOption(options) = VecTcOption::parse_with_param(&container, "fq_codel").unwrap();
    assert_eq!(
        options,
        vec![
            TcOption::FqCodel(DefaultNla { kind: 1, value: vec![0x10, 0x27, 0, 0] }),
            TcOption::FqCodel(DefaultNla { kind: 4, value: vec![1] }),
        ]
    );
}

#[test]
fn unknown_kind_yields_single_opaque_record() {
    // An unknown driver kind: the whole value stays one opaque record,
    // even though it would parse as a record stream.
    let inner: Vec<u8> = vec![8, 0, 1, 0, 0x10, 0x27, 0, 0];
    let container = DefaultNla { kind: 2, value: inner.clone() };
    let VecTcOption(options) = VecTcOption::parse_with_param(&container, "sfq").unwrap();
    assert_eq!(options, vec![TcOption::Other(DefaultNla { kind: 2, value: inner })]);
}

#[test]
fn known_kind_with_malformed_value_fails() {
    let container = DefaultNla { kind: 2, value: vec![3, 0, 1, 0] };
    assert_eq!(
        VecTcOption::parse_with_param(&container, "ingress"),
        Err(DecodeError::MalformedLength)
    );
}

#[test]
fn each_known_kind_gets_its_own_tag() {
    let rec = DefaultNla { kind: 1, value: vec![1, 2, 3, 4] };
    let cases: Vec<(&str, TcOption)> = vec![
        ("ingress", TcOption::Ingress(rec.clone())),
        ("flower", TcOption::Flower(rec.clone())),
        ("fq_codel", TcOption::FqCodel(rec.clone())),
        ("u32", TcOption::U32(rec.clone())),
        ("matchall", TcOption::MatchAll(rec.clone())),
        ("htb", TcOption::Other(rec.clone())),
    ];
    for (kind, expected) in cases {
        assert_eq!(TcOption::parse_with_param(&rec, kind).unwrap(), expected);
    }
}

#[test]
fn tc_option_delegates_to_inner_record() {
    let rec = DefaultNla { kind: 6, value: vec![1, 2, 3] };
    let opt = TcOption::U32(rec);
    assert_eq!(opt.kind(), 6);
    assert_eq!(opt.value_len(), 3);
    let mut value: Vec<u8> = vec![0; 3];
    opt.emit_value(&mut value);
    assert_eq!(value, vec![1, 2, 3]);
}

#[test]
fn string_comparison_is_exact() {
    assert!(str_eq("fq_codel", "fq_codel"));
    assert!(!str_eq("fq_codel", "fq_code"));
    assert!(!str_eq("ingress", "Ingress"));
    assert!(str_eq("", ""));
}
