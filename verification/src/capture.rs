//! The settings window: its buttons, and capturing the next key pressed as
//! the new save or load key.
use vstd::prelude::*;

use crate::keys::key_name;
use crate::text::starts_with;

verus! {

/// Control id of the "change save key" button.
pub const ID_BTN_SAVE: usize = 103;

/// Control id of the "change load key" button.
pub const ID_BTN_LOAD: usize = 104;

/// Control id of the OK button.
pub const ID_BTN_OK: usize = 105;

/// Control id of the cancel button.
pub const ID_BTN_CANCEL: usize = 106;

/// Virtual-key code of Esc, which cancels a capture.
pub const VK_ESCAPE: u32 = 0x1B;

/// Whether `vk` may be chosen as a hot key: any code from 1 to 0xFE except
/// mouse buttons, Shift/Ctrl/Alt, Caps Lock, the IME keys, Esc, the Windows
/// keys, Num Lock and Scroll Lock.
pub open spec fn capturable(vk: u32) -> bool {
    &&& 1 <= vk <= 0xFE
    &&& !(0x01 <= vk <= 0x06)
    &&& !(0x10 <= vk <= 0x12)
    &&& vk != 0x14
    &&& !(0x15 <= vk <= 0x1A)
    &&& vk != 0x1B
    &&& vk != 0x5B && vk != 0x5C
    &&& vk != 0x90 && vk != 0x91
}

/// Whether `vk` may be chosen as a hot key.
pub fn is_capturable(vk: u32) -> (b: bool)
    ensures
        b == capturable(vk),
{
    1 <= vk && vk <= 0xFE && !(0x01 <= vk && vk <= 0x06) && !(0x10 <= vk && vk <= 0x12) && vk
        != 0x14 && !(0x15 <= vk && vk <= 0x1A) && vk != 0x1B && vk != 0x5B && vk != 0x5C && vk
        != 0x90 && vk != 0x91
}

/// Which key is being captured.
#[derive(Clone, Copy, Debug, PartialEq, Eq, Structural)]
pub enum CaptureTarget {
    Save,
    Load,
}

/// What the window does after a button press.
#[derive(Clone, Copy, Debug, PartialEq, Eq, Structural)]
pub enum CommandEffect {
    /// Disable both change buttons, show the prompt for `CaptureTarget`,
    /// and start the polling timer.
    BeginCapture(CaptureTarget),
    /// Write the settings file with these keys, then quit.
    SaveAndQuit { save: u32, load: u32 },
    /// Quit without writing.
    Quit,
    /// Nothing.
    Ignore,
}

/// What the window does at a tick of the polling timer.
#[derive(Clone, Copy, Debug, PartialEq, Eq, Structural)]
pub enum TimerEffect {
    /// No capture is running, or no key is down: nothing.
    Idle,
    /// Esc was pressed: stop the timer, clear the prompt, enable the buttons.
    Cancelled,
    /// The key was captured: stop the timer, clear the prompt, enable the
    /// buttons, and show the new key names.
    Captured(u32),
}

/// The state of the settings window: the two keys and the capture in
/// progress, if any.
pub struct KeyCapture {
    pub save_vk: u32,
    pub load_vk: u32,
    pub waiting: Option<CaptureTarget>,
}

/// Whether `pressed` reports `vk` as down (codes beyond its end are up).
pub open spec fn key_down_in(pressed: Seq<bool>, vk: u32) -> bool {
    vk < pressed.len() && pressed[vk as int]
}

/// The first key from 1 to 0xFE that is down and may be captured.
pub open spec fn first_captured(pressed: Seq<bool>) -> Option<u32> {
    if exists|vk: u32| capturable(vk) && key_down_in(pressed, vk) {
        Some(
            choose|vk: u32|
                capturable(vk) && key_down_in(pressed, vk) && forall|w: u32|
                    w < vk ==> !(capturable(w) && key_down_in(pressed, w)),
        )
    } else {
        None
    }
}

impl KeyCapture {
    /// The window's state at start: the keys read from the settings file,
    /// no capture running.
    pub fn new(save_vk: u32, load_vk: u32) -> (c: KeyCapture)
        ensures
            c.save_vk == save_vk,
            c.load_vk == load_vk,
            c.waiting is None,
    {
        KeyCapture { save_vk, load_vk, waiting: None }
    }

    /// Whether a capture is running.
    pub fn is_waiting(&self) -> (b: bool)
        ensures
            b == (self.waiting is Some),
    {
        self.waiting.is_some()
    }

    /// Handles `WM_COMMAND` with the given `wparam`; its low word is the
    /// control id.
    pub fn on_command(&mut self, wparam: usize) -> (e: CommandEffect)
        ensures
            ({
                let id = wparam % 0x10000;
                &&& id == ID_BTN_SAVE ==> e == CommandEffect::BeginCapture(CaptureTarget::Save)
                    && final(self).waiting == Some(CaptureTarget::Save)
                &&& id == ID_BTN_LOAD ==> e == CommandEffect::BeginCapture(CaptureTarget::Load)
                    && final(self).waiting == Some(CaptureTarget::Load)
                &&& id == ID_BTN_OK ==> e == (CommandEffect::SaveAndQuit {
                    save: old(self).save_vk,
                    load: old(self).load_vk,
                }) && final(self).waiting == old(self).waiting
                &&& id == ID_BTN_CANCEL ==> e == CommandEffect::Quit && final(self).waiting == old(
                    self,
                ).waiting
                &&& (id != ID_BTN_SAVE && id != ID_BTN_LOAD && id != ID_BTN_OK && id
                    != ID_BTN_CANCEL) ==> e == CommandEffect::Ignore && final(self).waiting == old(
                    self,
                ).waiting
            }),
            final(self).save_vk == old(self).save_vk,
            final(self).load_vk == old(self).load_vk,
    {
        let id = wparam & 0xFFFF;
        assert(wparam & 0xFFFF == wparam % 0x10000) by (bit_vector);
        if id == ID_BTN_SAVE {
            self.waiting = Some(CaptureTarget::Save);
            CommandEffect::BeginCapture(CaptureTarget::Save)
        } else if id == ID_BTN_LOAD {
            self.waiting = Some(CaptureTarget::Load);
            CommandEffect::BeginCapture(CaptureTarget::Load)
        } else if id == ID_BTN_OK {
            CommandEffect::SaveAndQuit { save: self.save_vk, load: self.load_vk }
        } else if id == ID_BTN_CANCEL {
            CommandEffect::Quit
        } else {
            CommandEffect::Ignore
        }
    }

    /// Handles a tick of the polling timer. `esc_down` is whether Esc is
    /// down; `pressed[vk]` whether key `vk` is down. While no capture runs,
    /// the tick changes nothing.
    pub fn on_timer(&mut self, esc_down: bool, pressed: &Vec<bool>) -> (e: TimerEffect)
        ensures
            old(self).waiting is None ==> e == TimerEffect::Idle && *final(self) == *old(self),
            old(self).waiting is Some && esc_down ==> e == TimerEffect::Cancelled
                && final(self).waiting is None && final(self).save_vk == old(self).save_vk
                && final(self).load_vk == old(self).load_vk,
            old(self).waiting is Some && !esc_down ==> match first_captured(pressed@) {
                None => e == TimerEffect::Idle && *final(self) == *old(self),
                Some(vk) => {
                    &&& e == TimerEffect::Captured(vk)
                    &&& final(self).waiting is None
                    &&& old(self).waiting == Some(CaptureTarget::Save) ==> final(self).save_vk
                        == vk && final(self).load_vk == old(self).load_vk
                    &&& old(self).waiting == Some(CaptureTarget::Load) ==> final(self).load_vk
                        == vk && final(self).save_vk == old(self).save_vk
                },
            },
    {
        let target = match self.waiting {
            None => {
                return TimerEffect::Idle;
            },
            Some(t) => t,
        };
        if esc_down {
            self.waiting = None;
            return TimerEffect::Cancelled;
        }
        let mut vk: u32 = 1;
        while vk <= 0xFE
            invariant
                1 <= vk <= 0xFF,
                forall|w: u32| w < vk ==> !(capturable(w) && key_down_in(pressed@, w)),
                *self == *old(self),
                self.waiting == Some(target),
                !esc_down,
            decreases 0xFF - vk,
        {
            if is_capturable(vk) && (vk as usize) < pressed.len() && pressed[vk as usize] {
                proof {
                    assert(exists|v: u32| capturable(v) && key_down_in(pressed@, v));
                    let c = first_captured(pressed@)->0;
                    assert(capturable(c) && key_down_in(pressed@, c));
                    assert(!(c < vk));
                    assert(!(vk < c));
                }
                match target {
                    CaptureTarget::Save => {
                        self.save_vk = vk;
                    },
                    CaptureTarget::Load => {
                        self.load_vk = vk;
                    },
                }
                self.waiting = None;
                return TimerEffect::Captured(vk);
            }
            vk = vk + 1;
        }
        assert(first_captured(pressed@) is None) by {
            if exists|v: u32| capturable(v) && key_down_in(pressed@, v) {
                let v = choose|v: u32| capturable(v) && key_down_in(pressed@, v);
                assert(v < vk);
            }
        }
        TimerEffect::Idle
    }
}

/// The codes that can never be chosen as a hot key are exactly 0, the codes
/// above 0xFE, the mouse buttons (1-6), Shift, Ctrl and Alt (0x10-0x12),
/// Caps Lock (0x14), the IME keys (0x15-0x1A), Esc (0x1B), the Windows keys
/// (0x5B, 0x5C), Num Lock (0x90) and Scroll Lock (0x91).
pub proof fn lemma_excluded_keys(vk: u32)
    ensures
        !capturable(vk) <==> (vk == 0 || vk > 0xFE || set![
            1u32,
            2u32,
            3u32,
            4u32,
            5u32,
            6u32,
            0x10u32,
            0x11u32,
            0x12u32,
            0x14u32,
            0x15u32,
            0x16u32,
            0x17u32,
            0x18u32,
            0x19u32,
            0x1Au32,
            0x1Bu32,
            0x5Bu32,
            0x5Cu32,
            0x90u32,
            0x91u32,
        ].contains(vk)),
{
}

/// Every key that the settings window shows by a name of its own (not as
/// `VK 0x..`), other than Esc, may be chosen as a hot key: every letter,
/// digit, F1-F12, Num0-Num9, arrow and named key.
pub proof fn lemma_named_keys_capturable(vk: u32)
    ensures
        !starts_with(key_name(vk), seq!['V', 'K', ' ', '0', 'x']) && vk != 0x1B ==> capturable(
            vk,
        ),
{
    let p = seq!['V', 'K', ' ', '0', 'x'];
    reveal_strlit("Space");
    reveal_strlit("Enter");
    reveal_strlit("Esc");
    reveal_strlit("Tab");
    reveal_strlit("BackSpace");
    reveal_strlit("Delete");
    reveal_strlit("Insert");
    reveal_strlit("Home");
    reveal_strlit("End");
    reveal_strlit("PageUp");
    reveal_strlit("PageDown");
    if !(0x70 <= vk <= 0x7B || 0x41 <= vk <= 0x5A || 0x30 <= vk <= 0x39 || 0x60 <= vk <= 0x69
        || vk == 0x20 || vk == 0x0D || vk == 0x1B || vk == 0x09 || vk == 0x08 || vk == 0x2E || vk
        == 0x2D || vk == 0x24 || vk == 0x23 || vk == 0x21 || vk == 0x22 || 0x25 <= vk <= 0x28) {
        assert((p + crate::numfmt::hex_upper_2(vk as nat)).subrange(0, 5) == p);
    }
}

} // verus!
