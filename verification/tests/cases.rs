use swar_decimal::parser::make_u8;

#[test]
fn concrete_cases() {
    assert_eq!(make_u8(b"0"), Some(0));
    assert_eq!(make_u8(b"255"), Some(255));
    assert_eq!(make_u8(b"256"), None);
    assert_eq!(make_u8(b"042"), Some(42));
    assert_eq!(make_u8(b"1000"), None);
    assert_eq!(make_u8(b""), None);
    assert_eq!(make_u8(b"9a"), None);
}

#[test]
fn leading_zeros_accepted() {
    assert_eq!(make_u8(b"7"), Some(7));
    assert_eq!(make_u8(b"07"), Some(7));
    assert_eq!(make_u8(b"007"), Some(7));
    assert_eq!(make_u8(b"00"), Some(0));
    assert_eq!(make_u8(b"000"), Some(0));
}

#[test]
fn four_or_more_digit_strings_fail() {
    assert_eq!(make_u8(b"0000"), None);
    assert_eq!(make_u8(b"0001"), None);
    assert_eq!(make_u8(b"12345"), None);
    assert_eq!(make_u8(b"00000000"), None);
}

#[test]
fn overflow_boundary_cases() {
    assert_eq!(make_u8(b"254"), Some(254));
    assert_eq!(make_u8(b"259"), None);
    assert_eq!(make_u8(b"260"), None);
    assert_eq!(make_u8(b"300"), None);
    assert_eq!(make_u8(b"400"), None);
    assert_eq!(make_u8(b"999"), None);
}

#[test]
fn non_digit_byte_examples_fail() {
    assert_eq!(make_u8(b"a"), None);
    assert_eq!(make_u8(b"a9"), None);
    assert_eq!(make_u8(b"2 5"), None);
    assert_eq!(make_u8(b"-1"), None);
    assert_eq!(make_u8(b"+1"), None);
    assert_eq!(make_u8(b"1.0"), None);
    assert_eq!(make_u8(&[0x00]), None);
    assert_eq!(make_u8(&[0x35, 0xff, 0x35]), None);
    assert_eq!(make_u8(&[0x2f, 0x3a]), None);
}

#[test]
fn repeated_calls_agree() {
    let inputs: Vec<&[u8]> = vec![b"0", b"42", b"255", b"256", b"", b"9a", &[0xff, 0x31]];
    for s in inputs {
        let first = make_u8(s);
        for _ in 0..8 {
            assert_eq!(make_u8(s), first);
        }
    }
}
