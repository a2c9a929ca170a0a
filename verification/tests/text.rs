use syobon_quicksave::text::{chars_of, has_prefix, has_suffix, same_chars, string_of, trim_chars};
use syobon_quicksave::utf16::{decode_units_lossy, units_until_nul, wide_string};

#[test]
fn trim_like_str_trim() {
    for s in ["", "  ", " a b ", "\u{3000}x\u{2028}", "\u{85}\u{A0}y\t\r\n", "z"] {
        let v = chars_of(s);
        assert_eq!(string_of(&trim_chars(&v)), s.trim());
    }
}

#[test]
fn prefixes_and_suffixes() {
    let v = chars_of("save=1");
    assert!(has_prefix(&v, &chars_of("save=")));
    assert!(!has_prefix(&v, &chars_of("load=")));
    assert!(has_suffix(&chars_of("a.exe"), &chars_of(".exe")));
    assert!(!has_suffix(&chars_of("exe"), &chars_of(".exe")));
    assert!(same_chars(&chars_of("ab"), &chars_of("ab")));
    assert!(!same_chars(&chars_of("ab"), &chars_of("abc")));
}

#[test]
fn wide_strings_end_in_zero() {
    let w = wide_string("QSConfig");
    let mut expected: Vec<u16> = "QSConfig".encode_utf16().collect();
    expected.push(0);
    assert_eq!(w, expected);
    let w = wide_string("セーブキー:");
    assert_eq!(w.last(), Some(&0));
    assert_eq!(String::from_utf16(&w[..w.len() - 1]).unwrap(), "セーブキー:");
}

#[test]
fn lossy_decoding_like_std() {
    let cases: Vec<Vec<u16>> = vec![
        vec![],
        vec![0x41, 0xD83D, 0xDE00, 0x42],
        vec![0xD800],
        vec![0xDC00, 0xD800, 0x41],
        vec![0xD800, 0xD800, 0xDC00],
        "しょぼん".encode_utf16().collect(),
    ];
    for c in cases {
        let got: String = decode_units_lossy(&c).into_iter().collect();
        assert_eq!(got, String::from_utf16_lossy(&c));
    }
}

#[test]
fn until_first_zero() {
    assert_eq!(units_until_nul(&vec![1, 2, 0, 3]), vec![1, 2]);
    assert_eq!(units_until_nul(&vec![1, 2]), vec![1, 2]);
    assert_eq!(units_until_nul(&vec![0, 1]), Vec::<u16>::new());
}
