use rex::ids::{format_id, new_id, parse_hex, parse_uuid};

#[test]
fn format_id_pads_to_32_lower_case_digits() {
    assert_eq!(format_id(0), "00000000000000000000000000000000");
    assert_eq!(format_id(1), "00000000000000000000000000000001");
    assert_eq!(format_id(255), "000000000000000000000000000000ff");
    assert_eq!(format_id(0xABCDEF), "00000000000000000000000000abcdef");
    assert_eq!(format_id(u128::MAX), "ffffffffffffffffffffffffffffffff");
    assert_eq!(
        format_id(0x0123456789abcdef_fedcba9876543210),
        "0123456789abcdeffedcba9876543210"
    );
}

#[test]
fn format_id_agrees_with_the_standard_formatter() {
    for id in [0u128, 7, 16, 4096, 1 << 64, (1 << 127) + 12345, u128::MAX - 1] {
        assert_eq!(format_id(id), format!("{:0>32x}", id));
        assert_eq!(format_id(id).len(), 32);
    }
}

#[test]
fn parse_hex_reads_digits_of_either_case() {
    assert_eq!(parse_hex("0"), Some(0));
    assert_eq!(parse_hex("ff"), Some(255));
    assert_eq!(parse_hex("FF"), Some(255));
    assert_eq!(parse_hex("aBcDeF"), Some(0xabcdef));
    assert_eq!(parse_hex("05c1de2f5c5e7933bee97a499e818c5e"), Some(
        7652759719864282229575961724042972254
    ));
}

#[test]
fn parse_hex_takes_a_leading_plus_sign() {
    assert_eq!(parse_hex("+ff"), Some(255));
    assert_eq!(parse_hex("+"), None);
    assert_eq!(parse_hex("++1"), None);
    assert_eq!(parse_hex("1+"), None);
}

#[test]
fn parse_hex_rejects_what_is_no_number() {
    assert_eq!(parse_hex(""), None);
    assert_eq!(parse_hex("-1"), None);
    assert_eq!(parse_hex("-"), None);
    assert_eq!(parse_hex("0x10"), None);
    assert_eq!(parse_hex("g"), None);
    assert_eq!(parse_hex(" 1"), None);
    assert_eq!(parse_hex("1 "), None);
    assert_eq!(parse_hex("1_0"), None);
    assert_eq!(parse_hex("12-34"), None);
    assert_eq!(parse_hex("é"), None);
}

#[test]
fn parse_hex_stops_at_128_bits() {
    assert_eq!(parse_hex("ffffffffffffffffffffffffffffffff"), Some(u128::MAX));
    assert_eq!(parse_hex("100000000000000000000000000000000"), None);
    assert_eq!(parse_hex("fffffffffffffffffffffffffffffffff"), None);
    assert_eq!(parse_hex("0000000000ffffffffffffffffffffffffffffffff"), Some(u128::MAX));
}

#[test]
fn parse_hex_agrees_with_the_standard_reader() {
    for text in [
        "", "+", "-", "0", "+0", "-0", "7f", "+7F", "zz", "00000000000000000000000000000001",
        "ffffffffffffffffffffffffffffffff", "100000000000000000000000000000000", "1-2", " 1",
    ] {
        assert_eq!(parse_hex(text), u128::from_str_radix(text, 16).ok(), "for {:?}", text);
    }
}

#[test]
fn parse_uuid_passes_over_hyphens() {
    assert_eq!(parse_uuid("00000000-0000-0000-0000-000000000000"), Some(0));
    assert_eq!(parse_uuid("00000000-0000-0000-0000-00000000002a"), Some(42));
    assert_eq!(parse_uuid("a-b"), Some(0xab));
    assert_eq!(parse_uuid("-1"), Some(1));
    assert_eq!(parse_uuid("1-"), Some(1));
    assert_eq!(parse_uuid("----"), None);
    assert_eq!(parse_uuid(""), None);
    assert_eq!(parse_uuid("-+1"), Some(1));
    assert_eq!(parse_uuid("1-+"), None);
    assert_eq!(parse_uuid("12g4"), None);
}

#[test]
fn parse_uuid_agrees_with_removing_hyphens_first() {
    for text in ["", "-", "a-b-c", "+-1", "1+-", "dead-beef", "00-zz", "F-F"] {
        assert_eq!(
            parse_uuid(text),
            u128::from_str_radix(text.replace("-", "").as_str(), 16).ok(),
            "for {:?}",
            text
        );
    }
}

#[test]
fn identifiers_are_read_back_as_written() {
    for id in [0u128, 1, 7, 255, 256, 1 << 64, u128::MAX / 3, u128::MAX] {
        assert_eq!(parse_hex(format_id(id).as_str()), Some(id));
        assert_eq!(parse_uuid(format_id(id).as_str()), Some(id));
    }
}

#[test]
fn identifier_texts_sort_as_the_identifiers_do() {
    let ids = [0u128, 1, 9, 10, 15, 16, 255, 256, 1 << 64, (1 << 64) + 1, u128::MAX - 1, u128::MAX];
    for a in ids {
        for b in ids {
            assert_eq!(a < b, format_id(a) < format_id(b), "for {} and {}", a, b);
        }
    }
}

#[test]
fn new_id_carries_version_and_variant() {
    let first = new_id();
    let second = new_id();
    assert_eq!((first >> 76) & 0xf, 4);
    assert_eq!((first >> 62) & 0x3, 2);
    assert_eq!((second >> 76) & 0xf, 4);
    assert_eq!((second >> 62) & 0x3, 2);
    assert_ne!(first, second);
}
