//! What the injected DLL decides: which memory it saves, when a hot key
//! fires, whether a load may restore the saved memory, how it finds the
//! game window, what it does on attach and detach, and the overlay text.
//! Reading and writing the game's memory, sampling keys, sleeping, beeping
//! and drawing are left to the caller.
use vstd::prelude::*;

use crate::numfmt::{push_signed_padded, signed_padded};
use crate::trusted::{dll_process_attach, dll_process_detach};
use crate::utf16::{encode_chars, encode_utf16};

verus! {

/// Start of the first saved region of the game's memory (the game has no
/// ASLR and loads at 0x400000).
pub const REGION1_START: usize = 0x5A1000;

/// Length of the first saved region: 4 KiB.
pub const REGION1_SIZE: usize = 0x1000;

/// Start of the second saved region.
pub const REGION2_START: usize = 0x87A000;

/// Length of the second saved region: 88 KiB.
pub const REGION2_SIZE: usize = 0x16000;

/// Address of the game state; 1 while a stage is being played.
pub const GAME_STATE_ADDR: usize = 0x5A1274;

/// The game state during play.
pub const GAME_STATE_PLAYING: i32 = 1;

/// Address of the player's horizontal velocity.
pub const VEL_X_ADDR: usize = 0x87A544;

/// Address of the player's vertical velocity.
pub const VEL_Y_ADDR: usize = 0x880B24;

/// Address of the player's horizontal position.
pub const POS_X_ADDR: usize = 0x8806F4;

/// Address of the player's vertical position.
pub const POS_Y_ADDR: usize = 0x88AD7C;

/// Milliseconds between two polls of the hot keys, and between two looks
/// for the game window.
pub const POLL_INTERVAL_MS: u32 = 16;

/// How many times the worker looks for the game window before it gives up.
pub const WINDOW_SEARCH_ATTEMPTS: u32 = 125;

/// A beep: frequency in hertz and length in milliseconds.
#[derive(Clone, Copy, Debug, PartialEq, Eq, Structural)]
pub struct Tone {
    pub frequency: u32,
    pub duration_ms: u32,
}

/// The beep when the DLL has started.
pub fn ready_tone() -> (t: Tone)
    ensures
        t == (Tone { frequency: 800, duration_ms: 200 }),
{
    Tone { frequency: 800, duration_ms: 200 }
}

pub open spec fn save_tone() -> Tone {
    Tone { frequency: 1000, duration_ms: 80 }
}

pub open spec fn no_save_tone() -> Tone {
    Tone { frequency: 300, duration_ms: 150 }
}

pub open spec fn load_tone() -> Tone {
    Tone { frequency: 600, duration_ms: 80 }
}

/// The saved copy of both memory regions.
pub struct Snapshot {
    pub region1: Vec<u8>,
    pub region2: Vec<u8>,
}

/// The quick-save slot: empty until the first save, then the latest
/// snapshot.
pub struct SaveSlot {
    snapshot: Option<Snapshot>,
}

impl View for SaveSlot {
    type V = Option<(Seq<u8>, Seq<u8>)>;

    closed spec fn view(&self) -> Option<(Seq<u8>, Seq<u8>)> {
        match self.snapshot {
            Some(s) => Some((s.region1@, s.region2@)),
            None => None,
        }
    }
}

/// What to do first when the load key fires.
#[derive(Clone, Copy, Debug, PartialEq, Eq, Structural)]
pub enum LoadStart {
    /// Nothing was saved yet: beep, and do nothing else.
    NothingSaved(Tone),
    /// Read the game state and pass it to `SaveSlot::finish_load`.
    ReadGameState,
}

/// What a load does once the game state is known.
pub enum LoadFinish<'a> {
    /// No stage is being played: do nothing.
    NotPlaying,
    /// Write both regions back into the game's memory, then beep.
    Restore { snapshot: &'a Snapshot, tone: Tone },
}

/// Whether the slot `slot` holds a snapshot whose regions have the sizes
/// of the game's regions.
pub open spec fn slot_sizes_ok(slot: Option<(Seq<u8>, Seq<u8>)>) -> bool {
    slot matches Some(s) ==> s.0.len() == REGION1_SIZE && s.1.len() == REGION2_SIZE
}

/// The snapshot that a load restores from `slot` when the game state is
/// `game_state`, if it restores one.
pub open spec fn restored(slot: Option<(Seq<u8>, Seq<u8>)>, game_state: i32) -> Option<
    (Seq<u8>, Seq<u8>),
> {
    if game_state == GAME_STATE_PLAYING {
        slot
    } else {
        None
    }
}

impl SaveSlot {
    /// An empty slot.
    pub fn new() -> (slot: SaveSlot)
        ensures
            slot@ == None::<(Seq<u8>, Seq<u8>)>,
    {
        SaveSlot { snapshot: None }
    }

    /// Whether something was saved.
    pub fn has_save(&self) -> (b: bool)
        ensures
            b == (self@ is Some),
    {
        self.snapshot.is_some()
    }

    /// Stores a copy of both regions, replacing any earlier one; the caller
    /// then beeps with the returned tone.
    pub fn save(&mut self, region1: Vec<u8>, region2: Vec<u8>) -> (tone: Tone)
        requires
            region1@.len() == REGION1_SIZE,
            region2@.len() == REGION2_SIZE,
        ensures
            final(self)@ == Some((region1@, region2@)),
            slot_sizes_ok(final(self)@),
            tone == save_tone(),
    {
        self.snapshot = Some(Snapshot { region1, region2 });
        Tone { frequency: 1000, duration_ms: 80 }
    }

    /// The first step of a load: beep if nothing was saved, else read the
    /// game state.
    pub fn begin_load(&self) -> (step: LoadStart)
        ensures
            step == (if self@ is None {
                LoadStart::NothingSaved(no_save_tone())
            } else {
                LoadStart::ReadGameState
            }),
    {
        match &self.snapshot {
            None => LoadStart::NothingSaved(Tone { frequency: 300, duration_ms: 150 }),
            Some(_) => LoadStart::ReadGameState,
        }
    }

    /// The second step of a load: restore the snapshot while a stage is
    /// being played, else do nothing.
    pub fn finish_load(&self, game_state: i32) -> (r: LoadFinish<'_>)
        requires
            self@ is Some,
        ensures
            (r is Restore) == (restored(self@, game_state) is Some),
            r matches LoadFinish::Restore { snapshot, tone } ==> {
                &&& Some((snapshot.region1@, snapshot.region2@)) == restored(self@, game_state)
                &&& tone == load_tone()
            },
    {
        if game_state != 1 {
            return LoadFinish::NotPlaying;
        }
        match &self.snapshot {
            Some(s) => LoadFinish::Restore { snapshot: s, tone: Tone { frequency: 600, duration_ms: 80 } },
            None => LoadFinish::NotPlaying,
        }
    }
}

/// A load while a stage is being played gives back exactly the regions of
/// the latest save; at any other time a load restores nothing.
pub proof fn lemma_load_gives_back_save(region1: Seq<u8>, region2: Seq<u8>, game_state: i32)
    ensures
        restored(Some((region1, region2)), game_state) == (if game_state == GAME_STATE_PLAYING {
            Some((region1, region2))
        } else {
            None::<(Seq<u8>, Seq<u8>)>
        }),
{
}

/// Whether a hot key fires: it is down now and was up at the last poll.
pub open spec fn fires(was_down: bool, is_down: bool) -> bool {
    is_down && !was_down
}

/// How many times a key fires over the samples `samples`, when it was
/// `was_down` before the first.
pub open spec fn fire_count(was_down: bool, samples: Seq<bool>) -> nat
    decreases samples.len(),
{
    if samples.len() == 0 {
        0
    } else {
        (if fires(was_down, samples[0]) {
            1nat
        } else {
            0nat
        }) + fire_count(samples[0], samples.skip(1))
    }
}

/// A key pressed once and held for any number of polls fires once.
pub proof fn lemma_held_key_fires_once(samples: Seq<bool>)
    requires
        samples.len() > 0,
        forall|i: int| 0 <= i < samples.len() ==> #[trigger] samples[i],
    ensures
        fire_count(false, samples) == 1,
{
    assert(fire_count(true, samples.skip(1)) == 0) by {
        lemma_held_key_stays_quiet(samples.skip(1));
    }
}

/// A key that was already down and stays down never fires.
pub proof fn lemma_held_key_stays_quiet(samples: Seq<bool>)
    requires
        forall|i: int| 0 <= i < samples.len() ==> #[trigger] samples[i],
    ensures
        fire_count(true, samples) == 0,
    decreases samples.len(),
{
    if samples.len() > 0 {
        let rest = samples.skip(1);
        assert forall|i: int| 0 <= i < rest.len() implies #[trigger] rest[i] by {
            assert(rest[i] == samples[i + 1]);
        }
        lemma_held_key_stays_quiet(rest);
    }
}

/// Which hot keys fired at one poll.
#[derive(Clone, Copy, Debug, PartialEq, Eq, Structural)]
pub struct Fired {
    pub save: bool,
    pub load: bool,
}

/// The hot keys and whether each was down at the last poll.
pub struct HotkeyPoller {
    pub save_vk: i32,
    pub load_vk: i32,
    pub save_was_down: bool,
    pub load_was_down: bool,
}

impl HotkeyPoller {
    /// A poller for the keys `(save, load)` read from the settings, with no
    /// key down yet.
    pub fn from_config(keys: (u32, u32)) -> (p: HotkeyPoller)
        ensures
            p.save_vk == keys.0 as i32,
            p.load_vk == keys.1 as i32,
            !p.save_was_down,
            !p.load_was_down,
    {
        HotkeyPoller {
            save_vk: keys.0 as i32,
            load_vk: keys.1 as i32,
            save_was_down: false,
            load_was_down: false,
        }
    }

    /// One poll: the keys fire on the poll at which they go down.
    pub fn poll(&mut self, save_down: bool, load_down: bool) -> (f: Fired)
        ensures
            f.save == fires(old(self).save_was_down, save_down),
            f.load == fires(old(self).load_was_down, load_down),
            final(self).save_was_down == save_down,
            final(self).load_was_down == load_down,
            final(self).save_vk == old(self).save_vk,
            final(self).load_vk == old(self).load_vk,
    {
        let f = Fired { save: save_down && !self.save_was_down, load: load_down && !self.load_was_down };
        self.save_was_down = save_down;
        self.load_was_down = load_down;
        f
    }
}

/// Whether a top-level window belongs to the game: it is in this process
/// and visible.
pub fn is_game_window(window_pid: u32, current_pid: u32, visible: i32) -> (b: bool)
    ensures
        b == (window_pid == current_pid && visible != 0),
{
    window_pid == current_pid && visible != 0
}

/// What the worker does after one look for the game window.
#[derive(Clone, Copy, Debug, PartialEq, Eq, Structural)]
pub enum SearchStep {
    /// The window was found: remember it.
    Found(isize),
    /// Not found: wait `POLL_INTERVAL_MS`, then look again.
    WaitAndRetry,
    /// Not found for the last time: wait `POLL_INTERVAL_MS`, then go on
    /// without a window.
    WaitAndGiveUp,
}

/// The search for the game window: how many looks have failed.
pub struct WindowSearch {
    pub failed: u32,
}

impl WindowSearch {
    pub fn new() -> (s: WindowSearch)
        ensures
            s.failed == 0,
    {
        WindowSearch { failed: 0 }
    }

    /// Takes the result of one look (0 for none found).
    pub fn step(&mut self, hwnd: isize) -> (next: SearchStep)
        requires
            old(self).failed < WINDOW_SEARCH_ATTEMPTS,
        ensures
            hwnd != 0 ==> next == SearchStep::Found(hwnd),
            hwnd != 0 ==> final(self).failed == old(self).failed,
            hwnd == 0 ==> final(self).failed == old(self).failed + 1,
            hwnd == 0 && final(self).failed == WINDOW_SEARCH_ATTEMPTS ==> next
                == SearchStep::WaitAndGiveUp,
            hwnd == 0 && final(self).failed < WINDOW_SEARCH_ATTEMPTS ==> next
                == SearchStep::WaitAndRetry,
    {
        if hwnd != 0 {
            return SearchStep::Found(hwnd);
        }
        self.failed = self.failed + 1;
        if self.failed == WINDOW_SEARCH_ATTEMPTS {
            SearchStep::WaitAndGiveUp
        } else {
            SearchStep::WaitAndRetry
        }
    }
}

/// What the DLL does on a notification from the loader.
#[derive(Clone, Copy, Debug, PartialEq, Eq, Structural)]
pub enum DllAction {
    /// Attached to the game: remember the module and start the worker thread.
    StartWorker,
    /// Detached: delete the cached font.
    ReleaseFont(isize),
    /// Nothing to do.
    Nothing,
}

/// The action for the loader notification `reason`, given the cached font
/// handle (0 when none was created).
pub fn dll_event_action(reason: u32, cached_font: isize) -> (a: DllAction)
    ensures
        a == (if reason == 1 {
            DllAction::StartWorker
        } else if reason == 0 && cached_font != 0 {
            DllAction::ReleaseFont(cached_font)
        } else {
            DllAction::Nothing
        }),
{
    if reason == dll_process_attach() {
        DllAction::StartWorker
    } else if reason == dll_process_detach() {
        if cached_font != 0 {
            DllAction::ReleaseFont(cached_font)
        } else {
            DllAction::Nothing
        }
    } else {
        DllAction::Nothing
    }
}

/// One line of overlay text to draw: where, in which colour (0x00BBGGRR),
/// and the UTF-16 text.
pub struct TextDraw {
    pub x: i32,
    pub y: i32,
    pub color: u32,
    pub text: Vec<u16>,
}

/// `label_a` + `{:+5}` of `a` + `label_b` + `{:+5}` of `b`.
pub open spec fn pair_text(label_a: Seq<char>, a: i32, label_b: Seq<char>, b: i32) -> Seq<char> {
    label_a + signed_padded(a as int, 5) + label_b + signed_padded(b as int, 5)
}

/// `vX:{:+5} vY:{:+5}`
pub open spec fn velocity_text(vel_x: i32, vel_y: i32) -> Seq<char> {
    pair_text(seq!['v', 'X', ':'], vel_x, seq![' ', 'v', 'Y', ':'], vel_y)
}

/// `pX:{:+5} pY:{:+5}`
pub open spec fn position_text(pos_x: i32, pos_y: i32) -> Seq<char> {
    pair_text(seq!['p', 'X', ':'], pos_x, seq![' ', 'p', 'Y', ':'], pos_y)
}

fn pair_units(label_a: Vec<char>, a: i32, label_b: Vec<char>, b: i32) -> (u: Vec<u16>)
    ensures
        u@ == encode_utf16(pair_text(label_a@, a, label_b@, b)),
{
    let mut v = label_a;
    push_signed_padded(&mut v, a, 5);
    let mut i: usize = 0;
    let ghost base = v@;
    while i < label_b.len()
        invariant
            i <= label_b@.len(),
            v@ == base + label_b@.take(i as int),
        decreases label_b@.len() - i,
    {
        v.push(label_b[i]);
        assert(label_b@.take(i + 1) == label_b@.take(i as int).push(label_b@[i as int]));
        i = i + 1;
    }
    assert(label_b@.take(label_b@.len() as int) == label_b@);
    push_signed_padded(&mut v, b, 5);
    assert(v@ =~= pair_text(label_a@, a, label_b@, b));
    encode_chars(&v)
}

/// The overlay: velocity and position, each drawn first in black one pixel
/// down and right as a shadow, then in colour (velocity yellow, position
/// cyan).
pub fn overlay_texts(vel_x: i32, vel_y: i32, pos_x: i32, pos_y: i32) -> (draws: Vec<TextDraw>)
    ensures
        draws@.len() == 4,
        draws@[0].x == 297 && draws@[0].y == 5 && draws@[0].color == 0,
        draws@[1].x == 296 && draws@[1].y == 4 && draws@[1].color == 0x0000FFFF,
        draws@[2].x == 297 && draws@[2].y == 21 && draws@[2].color == 0,
        draws@[3].x == 296 && draws@[3].y == 20 && draws@[3].color == 0x00FFFF00,
        draws@[0].text@ == encode_utf16(velocity_text(vel_x, vel_y)),
        draws@[1].text@ == encode_utf16(velocity_text(vel_x, vel_y)),
        draws@[2].text@ == encode_utf16(position_text(pos_x, pos_y)),
        draws@[3].text@ == encode_utf16(position_text(pos_x, pos_y)),
{
    let vel = pair_units(vec!['v', 'X', ':'], vel_x, vec![' ', 'v', 'Y', ':'], vel_y);
    let pos = pair_units(vec!['p', 'X', ':'], pos_x, vec![' ', 'p', 'Y', ':'], pos_y);
    let mut draws: Vec<TextDraw> = Vec::new();
    draws.push(TextDraw { x: 297, y: 5, color: 0x00000000, text: vel.clone() });
    draws.push(TextDraw { x: 296, y: 4, color: 0x0000FFFF, text: vel });
    draws.push(TextDraw { x: 297, y: 21, color: 0x00000000, text: pos.clone() });
    draws.push(TextDraw { x: 296, y: 20, color: 0x00FFFF00, text: pos });
    draws
}

} // verus!
