//! Virtual-key codes: reading a sampled key state, naming a key for the
//! settings window, and which keys may be chosen as hot keys.
use vstd::prelude::*;

use crate::numfmt::{
    decimal, hex_upper_2, lemma_decimal_spells, lemma_hex_upper_2_parses, parse_u32, push_decimal,
    push_hex_2,
};
use crate::text::{push_all, starts_with, string_of};

verus! {

/// Whether a key state sampled by `GetAsyncKeyState` reports the key as held
/// down: its most significant bit is set.
pub fn is_key_down(state: i16) -> (down: bool)
    ensures
        down == (state < 0),
        down == ((state as u16) & 0x8000u16 != 0),
{
    assert((state < 0) == ((state as u16) & 0x8000u16 != 0)) by (bit_vector);
    state < 0
}

/// The name under which the settings window shows the key `vk`.
pub open spec fn key_name(vk: u32) -> Seq<char> {
    if 0x70 <= vk <= 0x7B {
        seq!['F'] + decimal((vk - 0x6F) as nat)
    } else if 0x41 <= vk <= 0x5A {
        seq![(vk as int) as char]
    } else if 0x30 <= vk <= 0x39 {
        decimal((vk - 0x30) as nat)
    } else if 0x60 <= vk <= 0x69 {
        seq!['N', 'u', 'm'] + decimal((vk - 0x60) as nat)
    } else if vk == 0x20 {
        "Space"@
    } else if vk == 0x0D {
        "Enter"@
    } else if vk == 0x1B {
        "Esc"@
    } else if vk == 0x09 {
        "Tab"@
    } else if vk == 0x08 {
        "BackSpace"@
    } else if vk == 0x2E {
        "Delete"@
    } else if vk == 0x2D {
        "Insert"@
    } else if vk == 0x24 {
        "Home"@
    } else if vk == 0x23 {
        "End"@
    } else if vk == 0x21 {
        "PageUp"@
    } else if vk == 0x22 {
        "PageDown"@
    } else if vk == 0x25 {
        seq!['\u{2190}']
    } else if vk == 0x26 {
        seq!['\u{2191}']
    } else if vk == 0x27 {
        seq!['\u{2192}']
    } else if vk == 0x28 {
        seq!['\u{2193}']
    } else {
        seq!['V', 'K', ' ', '0', 'x'] + hex_upper_2(vk as nat)
    }
}

fn string_with(prefix: Vec<char>, n: u32, hex: bool) -> (s: String)
    ensures
        s@ == prefix@ + (if hex {
            hex_upper_2(n as nat)
        } else {
            decimal(n as nat)
        }),
{
    let mut v = prefix;
    if hex {
        push_hex_2(&mut v, n);
    } else {
        push_decimal(&mut v, n as u64);
    }
    let mut s = String::new();
    push_all(&mut s, &v);
    s
}

/// The name under which the settings window shows the key `vk`: `F1`-`F12`,
/// letters, digits, `Num0`-`Num9`, a few named keys, arrows, and `VK 0x..`
/// for any other code.
pub fn vk_name(vk: u32) -> (name: String)
    ensures
        name@ == key_name(vk),
{
    if 0x70 <= vk && vk <= 0x7B {
        string_with(vec!['F'], vk - 0x6F, false)
    } else if 0x41 <= vk && vk <= 0x5A {
        string_of(&vec![(vk as u8) as char])
    } else if 0x30 <= vk && vk <= 0x39 {
        string_with(Vec::new(), vk - 0x30, false)
    } else if 0x60 <= vk && vk <= 0x69 {
        string_with(vec!['N', 'u', 'm'], vk - 0x60, false)
    } else if vk == 0x20 {
        String::from_str("Space")
    } else if vk == 0x0D {
        String::from_str("Enter")
    } else if vk == 0x1B {
        String::from_str("Esc")
    } else if vk == 0x09 {
        String::from_str("Tab")
    } else if vk == 0x08 {
        String::from_str("BackSpace")
    } else if vk == 0x2E {
        String::from_str("Delete")
    } else if vk == 0x2D {
        String::from_str("Insert")
    } else if vk == 0x24 {
        String::from_str("Home")
    } else if vk == 0x23 {
        String::from_str("End")
    } else if vk == 0x21 {
        String::from_str("PageUp")
    } else if vk == 0x22 {
        String::from_str("PageDown")
    } else if vk == 0x25 {
        string_of(&vec!['\u{2190}'])
    } else if vk == 0x26 {
        string_of(&vec!['\u{2191}'])
    } else if vk == 0x27 {
        string_of(&vec!['\u{2192}'])
    } else if vk == 0x28 {
        string_of(&vec!['\u{2193}'])
    } else {
        string_with(vec!['V', 'K', ' ', '0', 'x'], vk, true)
    }
}

/// Whether `vk` has a name of its own: a function key F1-F12, a letter, a
/// digit, a keypad digit, an arrow, or one of the named keys.
pub open spec fn has_own_name(vk: u32) -> bool {
    ||| 0x70 <= vk <= 0x7B
    ||| 0x41 <= vk <= 0x5A
    ||| 0x30 <= vk <= 0x39
    ||| 0x60 <= vk <= 0x69
    ||| 0x25 <= vk <= 0x28
    ||| set![0x20u32, 0x0Du32, 0x1Bu32, 0x09u32, 0x08u32, 0x2Eu32, 0x2Du32, 0x24u32, 0x23u32, 0x21u32, 0x22u32].contains(vk)
}

proof fn lemma_own_names_first_char(vk: u32)
    requires
        has_own_name(vk),
    ensures
        key_name(vk).len() > 0,
        key_name(vk)[0] != 'V' || vk == 0x56,
        key_name(vk)[0] == 'N' ==> key_name(vk).len() == 1 || 0x60 <= vk <= 0x69,
        key_name(vk).len() == 1 || key_name(vk)[0] != 'V',
{
    reveal_strlit("Space");
    reveal_strlit("Enter");
    reveal_strlit("Esc");
    reveal_strlit("Tab");
    reveal_strlit("BackSpace");
    reveal_strlit("Delete");
    reveal_strlit("Insert");
    reveal_strlit("Home");
    reveal_strlit("End");
    reveal_strlit("PageUp");
    reveal_strlit("PageDown");
    if 0x70 <= vk <= 0x7B {
        lemma_decimal_spells((vk - 0x6F) as nat);
    } else if 0x30 <= vk <= 0x39 {
        lemma_decimal_spells((vk - 0x30) as nat);
    } else if 0x60 <= vk <= 0x69 {
        lemma_decimal_spells((vk - 0x60) as nat);
    }
}

/// A key name begins with `Num` exactly for the keypad digits 0x60-0x69,
/// and such a name is `Num` followed by the single digit `vk - 0x60`.
pub proof fn lemma_keypad_names(vk: u32)
    ensures
        starts_with(key_name(vk), seq!['N', 'u', 'm']) <==> 0x60 <= vk <= 0x69,
        starts_with(key_name(vk), seq!['N', 'u', 'm']) ==> key_name(vk).len() == 4
            && key_name(vk)[3] as int == 48 + vk - 0x60,
{
    let num = seq!['N', 'u', 'm'];
    if 0x60 <= vk <= 0x69 {
        let d = (vk - 0x60) as nat;
        lemma_decimal_spells(d);
        assert(key_name(vk).subrange(0, 3) == num);
        assert(key_name(vk)[3] == decimal(d)[0]);
        assert(decimal(d) == seq![crate::numfmt::digit_char(d)]);
    } else if has_own_name(vk) {
        lemma_own_names_first_char(vk);
        if starts_with(key_name(vk), num) {
            assert(key_name(vk).subrange(0, 3)[0] == 'N');
            assert(key_name(vk).len() >= 3);
        }
    } else {
        assert(key_name(vk)[0] == 'V');
        assert(key_name(vk).subrange(0, 3)[0] == 'V');
    }
}

/// Every key without a name of its own (such as the keypad operators
/// 0x6A-0x6F) is shown as `VK 0x` and its code in hexadecimal, and reading
/// that hexadecimal back gives the code; no key with a name of its own is
/// shown so.
pub proof fn lemma_hex_names(vk: u32)
    ensures
        starts_with(key_name(vk), seq!['V', 'K', ' ', '0', 'x']) <==> !has_own_name(vk),
        starts_with(key_name(vk), seq!['V', 'K', ' ', '0', 'x']) ==> parse_u32(
            key_name(vk).skip(5),
            16,
        ) == Some(vk),
{
    let p = seq!['V', 'K', ' ', '0', 'x'];
    if has_own_name(vk) {
        lemma_own_names_first_char(vk);
        if starts_with(key_name(vk), p) {
            assert(key_name(vk).subrange(0, 5)[0] == 'V');
            assert(key_name(vk).subrange(0, 5)[1] == 'K');
        }
    } else {
        lemma_hex_upper_2_parses(vk);
        assert(key_name(vk).subrange(0, 5) == p);
        assert(key_name(vk).skip(5) == hex_upper_2(vk as nat));
    }
}

} // verus!
