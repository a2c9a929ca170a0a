//! The items of this crate whose contracts Verus takes on trust: thin
//! wrappers around windows-sys constants and a few std functions that vstd
//! gives no specification.
use vstd::prelude::*;

verus! {

/// Reads `windows_sys::Win32::UI::Input::KeyboardAndMouse::VK_F5`, which
/// windows-sys defines as the virtual-key code 116 (0x74).
#[verifier::external_body]
pub(crate) fn vk_f5() -> (k: u16)
    ensures
        k == 0x74,
{
    windows_sys::Win32::UI::Input::KeyboardAndMouse::VK_F5
}

/// Reads `windows_sys::Win32::UI::Input::KeyboardAndMouse::VK_F9`, which
/// windows-sys defines as the virtual-key code 120 (0x78).
#[verifier::external_body]
pub(crate) fn vk_f9() -> (k: u16)
    ensures
        k == 0x78,
{
    windows_sys::Win32::UI::Input::KeyboardAndMouse::VK_F9
}

/// Calls `String::push`, which appends one character to the string.
#[verifier::external_body]
pub(crate) fn push_char(s: &mut String, c: char)
    ensures
        final(s)@ == old(s)@.push(c),
{
    s.push(c);
}

/// Whether `x` is a Unicode scalar value, the codes that a `char` can hold.
pub open spec fn is_scalar_value(x: u32) -> bool {
    x <= 0x10FFFF && !(0xD800 <= x <= 0xDFFF)
}

/// `char::from_u32` gives the character with code `i` where `i` is a Unicode
/// scalar value, and `None` for every other `i`.
pub assume_specification[ char::from_u32 ](i: u32) -> (r: Option<char>)
    ensures
        r == (if is_scalar_value(i) {
            Some(i as char)
        } else {
            None::<char>
        }),
;

/// Reads `windows_sys::Win32::System::SystemServices::DLL_PROCESS_ATTACH`,
/// which windows-sys defines as 1.
#[verifier::external_body]
pub(crate) fn dll_process_attach() -> (r: u32)
    ensures
        r == 1,
{
    windows_sys::Win32::System::SystemServices::DLL_PROCESS_ATTACH
}

/// Reads `windows_sys::Win32::System::SystemServices::DLL_PROCESS_DETACH`,
/// which windows-sys defines as 0.
#[verifier::external_body]
pub(crate) fn dll_process_detach() -> (r: u32)
    ensures
        r == 0,
{
    windows_sys::Win32::System::SystemServices::DLL_PROCESS_DETACH
}

/// The lower-case form of `s` that `str::to_lowercase` computes from the
/// Unicode tables of std: a function of `s` alone.
pub uninterp spec fn lowercase(s: Seq<char>) -> Seq<char>;

/// Calls `str::to_lowercase`.
#[verifier::external_body]
pub(crate) fn to_lowercase(s: &str) -> (r: String)
    ensures
        r@ == lowercase(s@),
{
    s.to_lowercase()
}

} // verus!
