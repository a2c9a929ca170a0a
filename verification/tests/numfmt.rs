use syobon_quicksave::numfmt::{parse_u32_radix, push_decimal, push_hex_2, push_signed_padded};

fn chars(s: &str) -> Vec<char> {
    s.chars().collect()
}

fn text(v: &[char]) -> String {
    v.iter().collect()
}

#[test]
fn decimal_digits() {
    let mut v = Vec::new();
    push_decimal(&mut v, 0);
    assert_eq!(text(&v), "0");
    let mut v = chars("n=");
    push_decimal(&mut v, 4294967296);
    assert_eq!(text(&v), "n=4294967296");
}

#[test]
fn hex_two_digits() {
    let mut v = Vec::new();
    push_hex_2(&mut v, 0);
    assert_eq!(text(&v), "00");
    let mut v = Vec::new();
    push_hex_2(&mut v, 0xA);
    assert_eq!(text(&v), "0A");
    let mut v = Vec::new();
    push_hex_2(&mut v, 0xBEEF);
    assert_eq!(text(&v), "BEEF");
}

#[test]
fn signed_padded_like_format() {
    for &x in &[0i32, 3, -12, 9999, -9999, 12345, -123456, i32::MIN, i32::MAX] {
        let mut v = Vec::new();
        push_signed_padded(&mut v, x, 5);
        assert_eq!(text(&v), format!("{:+5}", x));
    }
}

#[test]
fn parse_matches_from_str_radix() {
    let cases = [
        "", "+", "-", "-1", "0", "+0", "12", "ff", "FF", "fG", "ffffffff", "100000000", " 1",
        "0000000000001", "++1", "1_0", "4294967295", "4294967296",
    ];
    for s in cases.iter() {
        for &radix in &[10u32, 16u32] {
            assert_eq!(
                parse_u32_radix(&chars(s), radix),
                u32::from_str_radix(s, radix).ok(),
                "{} in radix {}",
                s,
                radix
            );
        }
    }
}
