use tftp::text::{bytes_eq, parse_decimal, push_decimal, str_eq};

#[test]
fn parse_decimal_reads_numbers() {
    assert_eq!(Some(0), parse_decimal(b"0", 10));
    assert_eq!(Some(10), parse_decimal(b"10", 10));
    assert_eq!(Some(7), parse_decimal(b"+7", 10));
    assert_eq!(Some(7), parse_decimal(b"007", 10));
    assert_eq!(Some(u64::MAX), parse_decimal(b"18446744073709551615", u64::MAX));
}

#[test]
fn parse_decimal_refuses_what_is_no_number_or_too_large() {
    assert_eq!(None, parse_decimal(b"", 10));
    assert_eq!(None, parse_decimal(b"+", 10));
    assert_eq!(None, parse_decimal(b"-1", 10));
    assert_eq!(None, parse_decimal(b"1 ", 10));
    assert_eq!(None, parse_decimal(b"++1", 10));
    assert_eq!(None, parse_decimal(b"11", 10));
    assert_eq!(None, parse_decimal(b"18446744073709551616", u64::MAX));
    assert_eq!(None, parse_decimal(b"99999999999999999999999", u64::MAX));
}

#[test]
fn push_decimal_appends_the_digits() {
    let mut out = vec![b'x'];
    push_decimal(&mut out, 0);
    push_decimal(&mut out, 65464);
    push_decimal(&mut out, u64::MAX);
    assert_eq!(&b"x06546418446744073709551615"[..], &out[..]);
}

#[test]
fn push_decimal_and_parse_decimal_agree() {
    for n in [0u64, 1, 9, 10, 99, 100, 512, 65535, 4294967296, u64::MAX] {
        let mut out = Vec::new();
        push_decimal(&mut out, n);
        assert_eq!(n.to_string().as_bytes(), &out[..]);
        assert_eq!(Some(n), parse_decimal(&out, u64::MAX));
    }
}

#[test]
fn equality_of_texts_and_bytes() {
    assert!(str_eq("octet", "octet"));
    assert!(!str_eq("octet", "octe"));
    assert!(!str_eq("octet", "Octet"));
    assert!(str_eq("", ""));
    assert!(bytes_eq(b"ab", b"ab"));
    assert!(!bytes_eq(b"ab", b"ac"));
    assert!(!bytes_eq(b"ab", b"abc"));
}
