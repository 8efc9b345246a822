use swar_decimal::parser::make_u8;

#[test]
fn all_8_bit_values_pass() {
    for i in 0..=255 {
        let s = format!("{}", i);
        let num = make_u8(s.as_bytes()).unwrap();
        assert_eq!(num, i);
    }
}

#[test]
fn all_3_digit_values_greater_than_255_fail() {
    for i in 256..=999 {
        let s = format!("{}", i);
        let num = make_u8(s.as_bytes());
        assert!(num.is_none(), "failed for {}", s);
    }
}

#[test]
fn a_4_digit_string_fails() {
    // will also fail on "0000"...
    let s = "1000";
    let num = make_u8(s.as_bytes());
    assert!(num.is_none(), "failed for {}", s);
}

#[test]
fn an_empty_string_fails() {
    let s = "";
    let num = make_u8(s.as_bytes());
    assert!(num.is_none(), "failed for {}", s);

    let lt_zero = (0x00..0x30).collect::<Vec<u8>>();
    let gt_nine = (0x3a..=0x7f).collect::<Vec<u8>>();
    let non_numeric: Vec<u8> = [lt_zero, gt_nine].concat();

    for c in non_numeric {
        let c = c as char;

        for d in '0'..='9' {
            for e in '0'..='9' {
                let s = format!("{}{}{}", d, e, c);
                let num = make_u8(s.as_bytes());
                assert!(num.is_none(), "failed for {}", s);
            }
        }
    }
}

#[test]
fn non_numeric_bytes_in_any_position_fail() {
    let lt_zero = (0x00..0x30).collect::<Vec<u8>>();
    let gt_nine = (0x3a..=0xff).collect::<Vec<u8>>();
    let non_numeric: Vec<u8> = [lt_zero, gt_nine].concat();

    let mut bytes: [u8; 3] = [0; 3];

    for pos in 0..3 {
        for &c in non_numeric.iter() {
            bytes[pos] = c;
            for d in '0'..='9' {
                bytes[(pos + 1) % 3] = d as u8;
                for e in '0'..='9' {
                    bytes[(pos + 2) % 3] = e as u8;
                    let num = make_u8(&bytes);
                    assert!(num.is_none(), "failed for {:?}", bytes);
                }
            }
        }
    }
}
