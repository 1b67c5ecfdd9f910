use mop3::numfmt::{dec_u128, dec_usize, parse_index};

#[test]
fn decimal_rendering_exact_values() {
    assert_eq!(dec_usize(0), "0");
    assert_eq!(dec_usize(7), "7");
    assert_eq!(dec_usize(12345), "12345");
    assert_eq!(dec_u128(340282366920938463463374607431768211455), "340282366920938463463374607431768211455");
}

#[test]
fn index_parsing_accepts_digits_only() {
    assert_eq!(parse_index("42"), Some(42));
    assert_eq!(parse_index("0"), Some(0));
    assert_eq!(parse_index(""), None);
    assert_eq!(parse_index("4a"), None);
    assert_eq!(parse_index("-1"), None);
    assert_eq!(parse_index("+1"), None);
    assert_eq!(parse_index(" 1"), None);
}

#[test]
fn index_parsing_rejects_overflow() {
    assert_eq!(parse_index("99999999999999999999999999999"), None);
    assert_eq!(parse_index(&usize::MAX.to_string()), Some(usize::MAX));
}

#[test]
fn rendering_then_parsing_round_trips() {
    for n in [0usize, 1, 9, 10, 99, 100, 65535, 1048576] {
        assert_eq!(parse_index(&dec_usize(n)), Some(n));
    }
}
