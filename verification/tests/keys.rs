use syobon_quicksave::capture::is_capturable;
use syobon_quicksave::keys::{is_key_down, vk_name};

#[test]
fn vk_name_function_keys() {
    assert_eq!(vk_name(0x70), "F1");
    assert_eq!(vk_name(0x74), "F5");
    assert_eq!(vk_name(0x78), "F9");
    assert_eq!(vk_name(0x7B), "F12");
}

#[test]
fn vk_name_letters_and_digits() {
    assert_eq!(vk_name(0x41), "A");
    assert_eq!(vk_name(0x51), "Q");
    assert_eq!(vk_name(0x5A), "Z");
    assert_eq!(vk_name(0x30), "0");
    assert_eq!(vk_name(0x39), "9");
    assert_eq!(vk_name(0x60), "Num0");
    assert_eq!(vk_name(0x69), "Num9");
}

#[test]
fn vk_name_named_keys() {
    assert_eq!(vk_name(0x20), "Space");
    assert_eq!(vk_name(0x0D), "Enter");
    assert_eq!(vk_name(0x1B), "Esc");
    assert_eq!(vk_name(0x09), "Tab");
    assert_eq!(vk_name(0x08), "BackSpace");
    assert_eq!(vk_name(0x2E), "Delete");
    assert_eq!(vk_name(0x2D), "Insert");
    assert_eq!(vk_name(0x24), "Home");
    assert_eq!(vk_name(0x23), "End");
    assert_eq!(vk_name(0x21), "PageUp");
    assert_eq!(vk_name(0x22), "PageDown");
    assert_eq!(vk_name(0x25), "←");
    assert_eq!(vk_name(0x26), "↑");
    assert_eq!(vk_name(0x27), "→");
    assert_eq!(vk_name(0x28), "↓");
}

#[test]
fn vk_name_other_codes_in_hex() {
    assert_eq!(vk_name(0x05), "VK 0x05");
    assert_eq!(vk_name(0x7C), "VK 0x7C");
    assert_eq!(vk_name(0xBA), "VK 0xBA");
    assert_eq!(vk_name(0xFE), "VK 0xFE");
    assert_eq!(vk_name(0x1234), "VK 0x1234");
    assert_eq!(vk_name(u32::MAX), "VK 0xFFFFFFFF");
}

#[test]
fn key_down_is_the_top_bit() {
    assert!(is_key_down(i16::MIN));
    assert!(is_key_down(-32767));
    assert!(is_key_down(-1));
    assert!(!is_key_down(0));
    assert!(!is_key_down(1));
    assert!(!is_key_down(i16::MAX));
}

#[test]
fn capturable_keys() {
    assert!(!is_capturable(0));
    for vk in 0x01..=0x06 {
        assert!(!is_capturable(vk));
    }
    assert!(is_capturable(0x07));
    assert!(is_capturable(0x08));
    assert!(!is_capturable(0x10));
    assert!(!is_capturable(0x12));
    assert!(is_capturable(0x13));
    assert!(!is_capturable(0x14));
    assert!(!is_capturable(0x15));
    assert!(!is_capturable(0x1A));
    assert!(!is_capturable(0x1B));
    assert!(is_capturable(0x1C));
    assert!(!is_capturable(0x5B));
    assert!(!is_capturable(0x5C));
    assert!(is_capturable(0x5D));
    assert!(!is_capturable(0x90));
    assert!(!is_capturable(0x91));
    assert!(is_capturable(0x74));
    assert!(is_capturable(0xFE));
    assert!(!is_capturable(0xFF));
}
