use syobon_quicksave::capture::{
    CaptureTarget, CommandEffect, KeyCapture, TimerEffect, ID_BTN_CANCEL, ID_BTN_LOAD, ID_BTN_OK,
    ID_BTN_SAVE,
};

fn pressed(keys: &[u32]) -> Vec<bool> {
    let mut v = vec![false; 256];
    for &k in keys {
        v[k as usize] = true;
    }
    v
}

#[test]
fn buttons() {
    let mut c = KeyCapture::new(0x74, 0x78);
    assert!(!c.is_waiting());
    assert_eq!(c.on_command(ID_BTN_OK), CommandEffect::SaveAndQuit { save: 0x74, load: 0x78 });
    assert_eq!(c.on_command(ID_BTN_CANCEL), CommandEffect::Quit);
    assert_eq!(c.on_command(999), CommandEffect::Ignore);
    assert!(!c.is_waiting());
    assert_eq!(c.on_command(ID_BTN_SAVE), CommandEffect::BeginCapture(CaptureTarget::Save));
    assert!(c.is_waiting());
    assert_eq!(c.on_command(ID_BTN_LOAD), CommandEffect::BeginCapture(CaptureTarget::Load));
    assert_eq!(c.waiting, Some(CaptureTarget::Load));
}

#[test]
fn command_id_is_the_low_word() {
    let mut c = KeyCapture::new(1, 2);
    assert_eq!(
        c.on_command((0x0001 << 16) | ID_BTN_SAVE),
        CommandEffect::BeginCapture(CaptureTarget::Save)
    );
}

#[test]
fn timer_without_capture_is_idle() {
    let mut c = KeyCapture::new(0x74, 0x78);
    assert_eq!(c.on_timer(true, &pressed(&[0x41])), TimerEffect::Idle);
    assert_eq!((c.save_vk, c.load_vk), (0x74, 0x78));
}

#[test]
fn capture_takes_the_lowest_allowed_key() {
    let mut c = KeyCapture::new(0x74, 0x78);
    c.on_command(ID_BTN_SAVE);
    assert_eq!(c.on_timer(false, &pressed(&[])), TimerEffect::Idle);
    assert!(c.is_waiting());
    assert_eq!(c.on_timer(false, &pressed(&[0x10, 0x5B, 0x51, 0x41])), TimerEffect::Captured(0x41));
    assert_eq!((c.save_vk, c.load_vk), (0x41, 0x78));
    assert!(!c.is_waiting());
}

#[test]
fn capture_of_load_key() {
    let mut c = KeyCapture::new(0x74, 0x78);
    c.on_command(ID_BTN_LOAD);
    assert_eq!(c.on_timer(false, &pressed(&[0x01, 0x14, 0x90, 0xFE])), TimerEffect::Captured(0xFE));
    assert_eq!((c.save_vk, c.load_vk), (0x74, 0xFE));
}

#[test]
fn escape_cancels_capture() {
    let mut c = KeyCapture::new(0x74, 0x78);
    c.on_command(ID_BTN_SAVE);
    assert_eq!(c.on_timer(true, &pressed(&[0x41])), TimerEffect::Cancelled);
    assert_eq!((c.save_vk, c.load_vk), (0x74, 0x78));
    assert!(!c.is_waiting());
}

#[test]
fn short_key_table_counts_missing_keys_as_up() {
    let mut c = KeyCapture::new(0x74, 0x78);
    c.on_command(ID_BTN_SAVE);
    assert_eq!(c.on_timer(false, &vec![true; 8]), TimerEffect::Captured(0x07));
    c.on_command(ID_BTN_SAVE);
    assert_eq!(c.on_timer(false, &vec![true; 3]), TimerEffect::Idle);
}
