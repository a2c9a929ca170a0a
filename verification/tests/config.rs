use syobon_quicksave::config::{config_text, default_keys, parse_config, read_config};

#[test]
fn defaults_are_f5_and_f9() {
    assert_eq!(default_keys(), (0x74, 0x78));
    assert_eq!(read_config(""), (0x74, 0x78));
}

#[test]
fn reads_both_keys() {
    assert_eq!(read_config("save=75\nload=79\n"), (0x75, 0x79));
    assert_eq!(read_config("load=41"), (0x74, 0x41));
}

#[test]
fn trims_lines_and_values() {
    assert_eq!(read_config("   save=  7a  \r\n\tload=\t1B\r\n"), (0x7A, 0x1B));
    assert_eq!(read_config("save = 7a\n"), (0x74, 0x78));
}

#[test]
fn accepts_plus_sign_and_any_case() {
    assert_eq!(read_config("save=+7A\nload=fE"), (0x7A, 0xFE));
}

#[test]
fn ignores_bad_values_and_other_lines() {
    let text = "# comment save=41\nsave=zz\nload=\nsave=-1\nload=+\nsave=100000000\nfoo=12\n";
    assert_eq!(read_config(text), (0x74, 0x78));
    assert_eq!(read_config("save=FFFFFFFF"), (u32::MAX, 0x78));
}

#[test]
fn later_lines_win() {
    assert_eq!(read_config("save=41\nsave=42\nsave=nope\n"), (0x42, 0x78));
}

#[test]
fn parse_config_keeps_given_defaults() {
    assert_eq!(parse_config("load=20", 1, 2), (1, 0x20));
    assert_eq!(parse_config("", 7, 9), (7, 9));
}

#[test]
fn writes_the_settings_file() {
    assert_eq!(
        config_text(0x74, 0x78),
        "# しょぼんのアクション クイックセーブ設定\nsave=74\nload=78\n"
    );
    assert_eq!(
        config_text(0x5, 0x1FF),
        "# しょぼんのアクション クイックセーブ設定\nsave=05\nload=1FF\n"
    );
}

#[test]
fn written_file_reads_back() {
    for &(s, l) in &[(0u32, 0u32), (0x74, 0x78), (0x0F, 0x10), (0xFE, 0x41), (u32::MAX, 7)] {
        let text = config_text(s, l);
        assert_eq!(read_config(&text), (s, l));
        assert_eq!(parse_config(&text, 1, 2), (s, l));
    }
}
