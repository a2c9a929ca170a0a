use syobon_quicksave::quicksave::{
    dll_event_action, is_game_window, overlay_texts, ready_tone, DllAction, Fired, HotkeyPoller,
    LoadFinish, LoadStart, SaveSlot, SearchStep, Tone, WindowSearch, REGION1_SIZE, REGION2_SIZE,
    WINDOW_SEARCH_ATTEMPTS,
};

fn regions(fill: u8) -> (Vec<u8>, Vec<u8>) {
    (vec![fill; REGION1_SIZE], vec![fill.wrapping_add(1); REGION2_SIZE])
}

#[test]
fn load_before_any_save_beeps_low() {
    let slot = SaveSlot::new();
    assert!(!slot.has_save());
    assert_eq!(slot.begin_load(), LoadStart::NothingSaved(Tone { frequency: 300, duration_ms: 150 }));
}

#[test]
fn load_gives_back_the_saved_regions() {
    let mut slot = SaveSlot::new();
    let (a, b) = regions(7);
    let tone = slot.save(a.clone(), b.clone());
    assert_eq!(tone, Tone { frequency: 1000, duration_ms: 80 });
    assert!(slot.has_save());
    assert_eq!(slot.begin_load(), LoadStart::ReadGameState);
    match slot.finish_load(1) {
        LoadFinish::Restore { snapshot, tone } => {
            assert_eq!(snapshot.region1, a);
            assert_eq!(snapshot.region2, b);
            assert_eq!(tone, Tone { frequency: 600, duration_ms: 80 });
        }
        LoadFinish::NotPlaying => panic!("expected a restore"),
    }
}

#[test]
fn load_outside_play_does_nothing() {
    let mut slot = SaveSlot::new();
    let (a, b) = regions(1);
    slot.save(a, b);
    for gs in [0, 2, -1, i32::MAX] {
        assert!(matches!(slot.finish_load(gs), LoadFinish::NotPlaying));
    }
}

#[test]
fn a_second_save_replaces_the_first() {
    let mut slot = SaveSlot::new();
    let (a, b) = regions(1);
    slot.save(a, b);
    let (c, d) = regions(9);
    slot.save(c.clone(), d.clone());
    match slot.finish_load(1) {
        LoadFinish::Restore { snapshot, .. } => {
            assert_eq!(snapshot.region1, c);
            assert_eq!(snapshot.region2, d);
        }
        LoadFinish::NotPlaying => panic!("expected a restore"),
    }
}

#[test]
fn hot_keys_fire_on_press_only() {
    let mut p = HotkeyPoller::from_config((0x74, 0x78));
    assert_eq!((p.save_vk, p.load_vk), (0x74, 0x78));
    assert_eq!(p.poll(false, false), Fired { save: false, load: false });
    assert_eq!(p.poll(true, false), Fired { save: true, load: false });
    assert_eq!(p.poll(true, true), Fired { save: false, load: true });
    assert_eq!(p.poll(true, true), Fired { save: false, load: false });
    assert_eq!(p.poll(false, true), Fired { save: false, load: false });
    assert_eq!(p.poll(true, false), Fired { save: true, load: false });
}

#[test]
fn held_key_fires_once() {
    let mut p = HotkeyPoller::from_config((0x41, 0x42));
    let mut count = 0;
    for _ in 0..100 {
        if p.poll(true, false).save {
            count += 1;
        }
    }
    assert_eq!(count, 1);
}

#[test]
fn poller_keeps_codes_as_i32() {
    let p = HotkeyPoller::from_config((u32::MAX, 0x80000000));
    assert_eq!(p.save_vk, -1);
    assert_eq!(p.load_vk, i32::MIN);
}

#[test]
fn window_search_gives_up_after_the_last_attempt() {
    let mut s = WindowSearch::new();
    for _ in 1..WINDOW_SEARCH_ATTEMPTS {
        assert_eq!(s.step(0), SearchStep::WaitAndRetry);
    }
    assert_eq!(s.step(0), SearchStep::WaitAndGiveUp);
    assert_eq!(s.failed, 125);
}

#[test]
fn window_search_finds_a_window() {
    let mut s = WindowSearch::new();
    assert_eq!(s.step(0), SearchStep::WaitAndRetry);
    assert_eq!(s.step(0x1234), SearchStep::Found(0x1234));
    assert_eq!(s.failed, 1);
}

#[test]
fn game_window_is_own_and_visible() {
    assert!(is_game_window(10, 10, 1));
    assert!(!is_game_window(10, 10, 0));
    assert!(!is_game_window(11, 10, 1));
}

#[test]
fn dll_events() {
    assert_eq!(dll_event_action(1, 0), DllAction::StartWorker);
    assert_eq!(dll_event_action(0, 0x55), DllAction::ReleaseFont(0x55));
    assert_eq!(dll_event_action(0, 0), DllAction::Nothing);
    assert_eq!(dll_event_action(2, 0x55), DllAction::Nothing);
    assert_eq!(dll_event_action(3, 0x55), DllAction::Nothing);
}

#[test]
fn ready_beep() {
    assert_eq!(ready_tone(), Tone { frequency: 800, duration_ms: 200 });
}

fn utf16(s: &str) -> Vec<u16> {
    s.encode_utf16().collect()
}

#[test]
fn overlay_text_and_layout() {
    let d = overlay_texts(3, -12, 123456, 0);
    assert_eq!(d.len(), 4);
    assert_eq!(d[0].text, utf16("vX:   +3 vY:  -12"));
    assert_eq!(d[1].text, d[0].text);
    assert_eq!(d[2].text, utf16("pX:+123456 pY:   +0"));
    assert_eq!(d[3].text, d[2].text);
    assert_eq!((d[0].x, d[0].y, d[0].color), (297, 5, 0));
    assert_eq!((d[1].x, d[1].y, d[1].color), (296, 4, 0x0000FFFF));
    assert_eq!((d[2].x, d[2].y, d[2].color), (297, 21, 0));
    assert_eq!((d[3].x, d[3].y, d[3].color), (296, 20, 0x00FFFF00));
}

#[test]
fn overlay_text_matches_format() {
    for &(a, b) in &[(0, 0), (-1, 1), (i32::MIN, i32::MAX), (-99999, 99999)] {
        let d = overlay_texts(a, b, b, a);
        assert_eq!(d[0].text, utf16(&format!("vX:{:+5} vY:{:+5}", a, b)));
        assert_eq!(d[2].text, utf16(&format!("pX:{:+5} pY:{:+5}", b, a)));
    }
}
