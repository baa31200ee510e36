//! Windows desktop logic: parsing hotkey combinations into modifier flags
//! and virtual-key codes and planning their registration, the tray icon's
//! and hotkeys' events, the key strokes of a simulated paste, wide strings
//! for Win32 calls, and assembling the applications offered for a content
//! type. The Win32 calls themselves (registering hotkeys, reading the
//! registry, sending input) are the caller's part.

use crate::platform::{AppChoice, HotkeyAction, HotkeyConfig, PasteMethod};
use crate::text::{
    ascii_lower, ascii_lower_char, ascii_lower_seq, ascii_upper, ascii_upper_char, before_char,
    chars_eq, chars_of, line_views, nonblank_pieces, split_nonblank, prefix_before,
    string_from_chars, to_ascii_lower, trim, trim_seq, encode_utf16, utf16_encode,
    decode_utf16_lossy, utf16_lossy,
};
use vstd::prelude::*;

verus! {

/// `MOD_ALT`.
pub const MOD_ALT: u32 = 0x0001;
/// `MOD_CONTROL`.
pub const MOD_CONTROL: u32 = 0x0002;
/// `MOD_SHIFT`.
pub const MOD_SHIFT: u32 = 0x0004;
/// `MOD_WIN`.
pub const MOD_WIN: u32 = 0x0008;
/// `MOD_NOREPEAT`, always added to registered hotkeys.
pub const MOD_NOREPEAT: u32 = 0x4000;
/// The tray icon's identifier.
pub const TRAY_ICON_ID: u32 = 1;

fn lit_eq(v: &[char], lit: &str) -> (b: bool)
    ensures
        b == (v@ == lit@),
{
    let l = chars_of(lit);
    chars_eq(v, l.as_slice())
}

/// A text as a NUL-terminated UTF-16 string, as Win32 calls take it.
pub fn wrap_wide(s: &str) -> (r: Vec<u16>)
    ensures
        r@ == utf16_encode(s@).push(0),
{
    let mut v = encode_utf16(s);
    v.push(0);
    v
}

/// The user's locale name from the buffer `GetUserDefaultLocaleName`
/// filled and the length it reported (counting the final NUL): none when
/// that length is at most 1, else the buffer's units before the NUL,
/// decoded lossily.
pub fn locale_name_from_buffer(buf: &[u16], reported_len: i32) -> (r: Option<String>)
    requires
        reported_len <= 1 || reported_len - 1 <= buf@.len(),
    ensures
        reported_len <= 1 ==> r is None,
        reported_len > 1 ==> (r matches Some(name) && name@ == utf16_lossy(
            buf@.subrange(0, reported_len - 1),
        )),
{
    if reported_len <= 1 {
        return None;
    }
    let len = (reported_len - 1) as usize;
    let mut units: Vec<u16> = Vec::new();
    let mut k: usize = 0;
    while k < len
        invariant
            k <= len,
            len <= buf@.len(),
            len == reported_len - 1,
            units@ == buf@.subrange(0, k as int),
        decreases len - k,
    {
        units.push(buf[k]);
        k = k + 1;
        assert(units@ =~= buf@.subrange(0, k as int));
    }
    let chars = decode_utf16_lossy(units.as_slice());
    Some(string_from_chars(chars.as_slice()))
}

/// The virtual-key code of a (lower-case) key name.
pub open spec fn named_key_code(name: Seq<char>) -> Option<u32> {
    if name == "space"@ {
        Some(0x20)
    } else if name == "tab"@ {
        Some(0x9)
    } else if name == "backspace"@ {
        Some(0x8)
    } else if name == "enter"@ || name == "return"@ {
        Some(0xD)
    } else if name == "escape"@ || name == "esc"@ {
        Some(0x1B)
    } else if name == "insert"@ {
        Some(0x2D)
    } else if name == "delete"@ {
        Some(0x2E)
    } else if name == "up"@ || name == "arrowup"@ {
        Some(0x26)
    } else if name == "down"@ || name == "arrowdown"@ {
        Some(0x28)
    } else if name == "left"@ || name == "arrowleft"@ {
        Some(0x25)
    } else if name == "right"@ || name == "arrowright"@ {
        Some(0x27)
    } else if name == "home"@ {
        Some(0x24)
    } else if name == "end"@ {
        Some(0x23)
    } else if name == "pageup"@ {
        Some(0x21)
    } else if name == "pagedown"@ {
        Some(0x22)
    } else if name == "plus"@ {
        Some(0xBB)
    } else if name == "minus"@ {
        Some(0xBD)
    } else if name == "comma"@ {
        Some(0xBC)
    } else if name == "period"@ {
        Some(0xBE)
    } else if name == "slash"@ {
        Some(0xBF)
    } else if name == "semicolon"@ {
        Some(0xBA)
    } else if name == "quote"@ {
        Some(0xDE)
    } else if name == "backslash"@ {
        Some(0xDC)
    } else if name == "bracketleft"@ {
        Some(0xDB)
    } else if name == "bracketright"@ {
        Some(0xDD)
    } else if name == "backquote"@ {
        Some(0xC0)
    } else if name == "f1"@ {
        Some(0x70)
    } else if name == "f2"@ {
        Some(0x71)
    } else if name == "f3"@ {
        Some(0x72)
    } else if name == "f4"@ {
        Some(0x73)
    } else if name == "f5"@ {
        Some(0x74)
    } else if name == "f6"@ {
        Some(0x75)
    } else if name == "f7"@ {
        Some(0x76)
    } else if name == "f8"@ {
        Some(0x77)
    } else if name == "f9"@ {
        Some(0x78)
    } else if name == "f10"@ {
        Some(0x79)
    } else if name == "f11"@ {
        Some(0x7A)
    } else if name == "f12"@ {
        Some(0x7B)
    } else if name == "f13"@ {
        Some(0x7C)
    } else if name == "f14"@ {
        Some(0x7D)
    } else if name == "f15"@ {
        Some(0x7E)
    } else if name == "f16"@ {
        Some(0x7F)
    } else if name == "f17"@ {
        Some(0x80)
    } else if name == "f18"@ {
        Some(0x81)
    } else if name == "f19"@ {
        Some(0x82)
    } else if name == "f20"@ {
        Some(0x83)
    } else if name == "f21"@ {
        Some(0x84)
    } else if name == "f22"@ {
        Some(0x85)
    } else if name == "f23"@ {
        Some(0x86)
    } else if name == "f24"@ {
        Some(0x87)
    } else {
        None
    }
}

/// Law: each key name of the table stands for its Win32 virtual-key code
/// (the `VK_*` constant named beside it).
#[verifier::rlimit(40)]
pub proof fn lemma_named_keys_are_win32_codes()
    ensures
        named_key_code("space"@) == Some(0x20u32),  // VK_SPACE
        named_key_code("tab"@) == Some(0x09u32),  // VK_TAB
        named_key_code("backspace"@) == Some(0x08u32),  // VK_BACK
        named_key_code("enter"@) == Some(0x0Du32),  // VK_RETURN
        named_key_code("return"@) == Some(0x0Du32),  // VK_RETURN
        named_key_code("escape"@) == Some(0x1Bu32),  // VK_ESCAPE
        named_key_code("esc"@) == Some(0x1Bu32),  // VK_ESCAPE
        named_key_code("insert"@) == Some(0x2Du32),  // VK_INSERT
        named_key_code("delete"@) == Some(0x2Eu32),  // VK_DELETE
        named_key_code("up"@) == Some(0x26u32),  // VK_UP
        named_key_code("arrowup"@) == Some(0x26u32),  // VK_UP
        named_key_code("down"@) == Some(0x28u32),  // VK_DOWN
        named_key_code("arrowdown"@) == Some(0x28u32),  // VK_DOWN
        named_key_code("left"@) == Some(0x25u32),  // VK_LEFT
        named_key_code("arrowleft"@) == Some(0x25u32),  // VK_LEFT
        named_key_code("right"@) == Some(0x27u32),  // VK_RIGHT
        named_key_code("arrowright"@) == Some(0x27u32),  // VK_RIGHT
        named_key_code("home"@) == Some(0x24u32),  // VK_HOME
        named_key_code("end"@) == Some(0x23u32),  // VK_END
        named_key_code("pageup"@) == Some(0x21u32),  // VK_PRIOR
        named_key_code("pagedown"@) == Some(0x22u32),  // VK_NEXT
        named_key_code("plus"@) == Some(0xBBu32),  // VK_OEM_PLUS
        named_key_code("minus"@) == Some(0xBDu32),  // VK_OEM_MINUS
        named_key_code("comma"@) == Some(0xBCu32),  // VK_OEM_COMMA
        named_key_code("period"@) == Some(0xBEu32),  // VK_OEM_PERIOD
        named_key_code("slash"@) == Some(0xBFu32),  // VK_OEM_2
        named_key_code("semicolon"@) == Some(0xBAu32),  // VK_OEM_1
        named_key_code("quote"@) == Some(0xDEu32),  // VK_OEM_7
        named_key_code("backslash"@) == Some(0xDCu32),  // VK_OEM_5
        named_key_code("bracketleft"@) == Some(0xDBu32),  // VK_OEM_4
        named_key_code("bracketright"@) == Some(0xDDu32),  // VK_OEM_6
        named_key_code("backquote"@) == Some(0xC0u32),  // VK_OEM_3
        named_key_code("f1"@) == Some(0x70u32),  // VK_F1
        named_key_code("f2"@) == Some(0x71u32),  // VK_F2
        named_key_code("f3"@) == Some(0x72u32),  // VK_F3
        named_key_code("f4"@) == Some(0x73u32),  // VK_F4
        named_key_code("f5"@) == Some(0x74u32),  // VK_F5
        named_key_code("f6"@) == Some(0x75u32),  // VK_F6
        named_key_code("f7"@) == Some(0x76u32),  // VK_F7
        named_key_code("f8"@) == Some(0x77u32),  // VK_F8
        named_key_code("f9"@) == Some(0x78u32),  // VK_F9
        named_key_code("f10"@) == Some(0x79u32),  // VK_F10
        named_key_code("f11"@) == Some(0x7Au32),  // VK_F11
        named_key_code("f12"@) == Some(0x7Bu32),  // VK_F12
        named_key_code("f13"@) == Some(0x7Cu32),  // VK_F13
        named_key_code("f14"@) == Some(0x7Du32),  // VK_F14
        named_key_code("f15"@) == Some(0x7Eu32),  // VK_F15
        named_key_code("f16"@) == Some(0x7Fu32),  // VK_F16
        named_key_code("f17"@) == Some(0x80u32),  // VK_F17
        named_key_code("f18"@) == Some(0x81u32),  // VK_F18
        named_key_code("f19"@) == Some(0x82u32),  // VK_F19
        named_key_code("f20"@) == Some(0x83u32),  // VK_F20
        named_key_code("f21"@) == Some(0x84u32),  // VK_F21
        named_key_code("f22"@) == Some(0x85u32),  // VK_F22
        named_key_code("f23"@) == Some(0x86u32),  // VK_F23
        named_key_code("f24"@) == Some(0x87u32),  // VK_F24
{
    reveal_strlit("space");
    assert("space"@ =~= seq!['s', 'p', 'a', 'c', 'e']);
    reveal_strlit("tab");
    assert("tab"@ =~= seq!['t', 'a', 'b']);
    reveal_strlit("backspace");
    assert("backspace"@ =~= seq!['b', 'a', 'c', 'k', 's', 'p', 'a', 'c', 'e']);
    reveal_strlit("enter");
    assert("enter"@ =~= seq!['e', 'n', 't', 'e', 'r']);
    reveal_strlit("return");
    assert("return"@ =~= seq!['r', 'e', 't', 'u', 'r', 'n']);
    reveal_strlit("escape");
    assert("escape"@ =~= seq!['e', 's', 'c', 'a', 'p', 'e']);
    reveal_strlit("esc");
    assert("esc"@ =~= seq!['e', 's', 'c']);
    reveal_strlit("insert");
    assert("insert"@ =~= seq!['i', 'n', 's', 'e', 'r', 't']);
    reveal_strlit("delete");
    assert("delete"@ =~= seq!['d', 'e', 'l', 'e', 't', 'e']);
    reveal_strlit("up");
    assert("up"@ =~= seq!['u', 'p']);
    reveal_strlit("arrowup");
    assert("arrowup"@ =~= seq!['a', 'r', 'r', 'o', 'w', 'u', 'p']);
    reveal_strlit("down");
    assert("down"@ =~= seq!['d', 'o', 'w', 'n']);
    reveal_strlit("arrowdown");
    assert("arrowdown"@ =~= seq!['a', 'r', 'r', 'o', 'w', 'd', 'o', 'w', 'n']);
    reveal_strlit("left");
    assert("left"@ =~= seq!['l', 'e', 'f', 't']);
    reveal_strlit("arrowleft");
    assert("arrowleft"@ =~= seq!['a', 'r', 'r', 'o', 'w', 'l', 'e', 'f', 't']);
    reveal_strlit("right");
    assert("right"@ =~= seq!['r', 'i', 'g', 'h', 't']);
    reveal_strlit("arrowright");
    assert("arrowright"@ =~= seq!['a', 'r', 'r', 'o', 'w', 'r', 'i', 'g', 'h', 't']);
    reveal_strlit("home");
    assert("home"@ =~= seq!['h', 'o', 'm', 'e']);
    reveal_strlit("end");
    assert("end"@ =~= seq!['e', 'n', 'd']);
    reveal_strlit("pageup");
    assert("pageup"@ =~= seq!['p', 'a', 'g', 'e', 'u', 'p']);
    reveal_strlit("pagedown");
    assert("pagedown"@ =~= seq!['p', 'a', 'g', 'e', 'd', 'o', 'w', 'n']);
    reveal_strlit("plus");
    assert("plus"@ =~= seq!['p', 'l', 'u', 's']);
    reveal_strlit("minus");
    assert("minus"@ =~= seq!['m', 'i', 'n', 'u', 's']);
    reveal_strlit("comma");
    assert("comma"@ =~= seq!['c', 'o', 'm', 'm', 'a']);
    reveal_strlit("period");
    assert("period"@ =~= seq!['p', 'e', 'r', 'i', 'o', 'd']);
    reveal_strlit("slash");
    assert("slash"@ =~= seq!['s', 'l', 'a', 's', 'h']);
    reveal_strlit("semicolon");
    assert("semicolon"@ =~= seq!['s', 'e', 'm', 'i', 'c', 'o', 'l', 'o', 'n']);
    reveal_strlit("quote");
    assert("quote"@ =~= seq!['q', 'u', 'o', 't', 'e']);
    reveal_strlit("backslash");
    assert("backslash"@ =~= seq!['b', 'a', 'c', 'k', 's', 'l', 'a', 's', 'h']);
    reveal_strlit("bracketleft");
    assert("bracketleft"@ =~= seq!['b', 'r', 'a', 'c', 'k', 'e', 't', 'l', 'e', 'f', 't']);
    reveal_strlit("bracketright");
    assert("bracketright"@ =~= seq!['b', 'r', 'a', 'c', 'k', 'e', 't', 'r', 'i', 'g', 'h', 't']);
    reveal_strlit("backquote");
    assert("backquote"@ =~= seq!['b', 'a', 'c', 'k', 'q', 'u', 'o', 't', 'e']);
    reveal_strlit("f1");
    assert("f1"@ =~= seq!['f', '1']);
    reveal_strlit("f2");
    assert("f2"@ =~= seq!['f', '2']);
    reveal_strlit("f3");
    assert("f3"@ =~= seq!['f', '3']);
    reveal_strlit("f4");
    assert("f4"@ =~= seq!['f', '4']);
    reveal_strlit("f5");
    assert("f5"@ =~= seq!['f', '5']);
    reveal_strlit("f6");
    assert("f6"@ =~= seq!['f', '6']);
    reveal_strlit("f7");
    assert("f7"@ =~= seq!['f', '7']);
    reveal_strlit("f8");
    assert("f8"@ =~= seq!['f', '8']);
    reveal_strlit("f9");
    assert("f9"@ =~= seq!['f', '9']);
    reveal_strlit("f10");
    assert("f10"@ =~= seq!['f', '1', '0']);
    reveal_strlit("f11");
    assert("f11"@ =~= seq!['f', '1', '1']);
    reveal_strlit("f12");
    assert("f12"@ =~= seq!['f', '1', '2']);
    reveal_strlit("f13");
    assert("f13"@ =~= seq!['f', '1', '3']);
    reveal_strlit("f14");
    assert("f14"@ =~= seq!['f', '1', '4']);
    reveal_strlit("f15");
    assert("f15"@ =~= seq!['f', '1', '5']);
    reveal_strlit("f16");
    assert("f16"@ =~= seq!['f', '1', '6']);
    reveal_strlit("f17");
    assert("f17"@ =~= seq!['f', '1', '7']);
    reveal_strlit("f18");
    assert("f18"@ =~= seq!['f', '1', '8']);
    reveal_strlit("f19");
    assert("f19"@ =~= seq!['f', '1', '9']);
    reveal_strlit("f20");
    assert("f20"@ =~= seq!['f', '2', '0']);
    reveal_strlit("f21");
    assert("f21"@ =~= seq!['f', '2', '1']);
    reveal_strlit("f22");
    assert("f22"@ =~= seq!['f', '2', '2']);
    reveal_strlit("f23");
    assert("f23"@ =~= seq!['f', '2', '3']);
    reveal_strlit("f24");
    assert("f24"@ =~= seq!['f', '2', '4']);
}

fn named_key_code_exec(name: &[char]) -> (r: Option<u32>)
    ensures
        r == named_key_code(name@),
{
    if lit_eq(name, "space") {
        Some(0x20)
    } else if lit_eq(name, "tab") {
        Some(0x9)
    } else if lit_eq(name, "backspace") {
        Some(0x8)
    } else if lit_eq(name, "enter") || lit_eq(name, "return") {
        Some(0xD)
    } else if lit_eq(name, "escape") || lit_eq(name, "esc") {
        Some(0x1B)
    } else if lit_eq(name, "insert") {
        Some(0x2D)
    } else if lit_eq(name, "delete") {
        Some(0x2E)
    } else if lit_eq(name, "up") || lit_eq(name, "arrowup") {
        Some(0x26)
    } else if lit_eq(name, "down") || lit_eq(name, "arrowdown") {
        Some(0x28)
    } else if lit_eq(name, "left") || lit_eq(name, "arrowleft") {
        Some(0x25)
    } else if lit_eq(name, "right") || lit_eq(name, "arrowright") {
        Some(0x27)
    } else if lit_eq(name, "home") {
        Some(0x24)
    } else if lit_eq(name, "end") {
        Some(0x23)
    } else if lit_eq(name, "pageup") {
        Some(0x21)
    } else if lit_eq(name, "pagedown") {
        Some(0x22)
    } else if lit_eq(name, "plus") {
        Some(0xBB)
    } else if lit_eq(name, "minus") {
        Some(0xBD)
    } else if lit_eq(name, "comma") {
        Some(0xBC)
    } else if lit_eq(name, "period") {
        Some(0xBE)
    } else if lit_eq(name, "slash") {
        Some(0xBF)
    } else if lit_eq(name, "semicolon") {
        Some(0xBA)
    } else if lit_eq(name, "quote") {
        Some(0xDE)
    } else if lit_eq(name, "backslash") {
        Some(0xDC)
    } else if lit_eq(name, "bracketleft") {
        Some(0xDB)
    } else if lit_eq(name, "bracketright") {
        Some(0xDD)
    } else if lit_eq(name, "backquote") {
        Some(0xC0)
    } else if lit_eq(name, "f1") {
        Some(0x70)
    } else if lit_eq(name, "f2") {
        Some(0x71)
    } else if lit_eq(name, "f3") {
        Some(0x72)
    } else if lit_eq(name, "f4") {
        Some(0x73)
    } else if lit_eq(name, "f5") {
        Some(0x74)
    } else if lit_eq(name, "f6") {
        Some(0x75)
    } else if lit_eq(name, "f7") {
        Some(0x76)
    } else if lit_eq(name, "f8") {
        Some(0x77)
    } else if lit_eq(name, "f9") {
        Some(0x78)
    } else if lit_eq(name, "f10") {
        Some(0x79)
    } else if lit_eq(name, "f11") {
        Some(0x7A)
    } else if lit_eq(name, "f12") {
        Some(0x7B)
    } else if lit_eq(name, "f13") {
        Some(0x7C)
    } else if lit_eq(name, "f14") {
        Some(0x7D)
    } else if lit_eq(name, "f15") {
        Some(0x7E)
    } else if lit_eq(name, "f16") {
        Some(0x7F)
    } else if lit_eq(name, "f17") {
        Some(0x80)
    } else if lit_eq(name, "f18") {
        Some(0x81)
    } else if lit_eq(name, "f19") {
        Some(0x82)
    } else if lit_eq(name, "f20") {
        Some(0x83)
    } else if lit_eq(name, "f21") {
        Some(0x84)
    } else if lit_eq(name, "f22") {
        Some(0x85)
    } else if lit_eq(name, "f23") {
        Some(0x86)
    } else if lit_eq(name, "f24") {
        Some(0x87)
    } else {
        None
    }
}

/// An ASCII letter or digit.
pub open spec fn is_ascii_alnum(c: char) -> bool {
    ('0' <= c && c <= '9') || ('A' <= c && c <= 'Z') || ('a' <= c && c <= 'z')
}

/// The virtual-key code of a key name: a single letter or digit stands for
/// its upper-case code; other names (trimmed, compared ignoring ASCII case)
/// come from the key table.
pub open spec fn key_to_vk_spec(key: Seq<char>) -> Option<u32> {
    let k = trim_seq(key);
    if k.len() == 1 && is_ascii_alnum(ascii_upper(k[0])) {
        Some(ascii_upper(k[0]) as u32)
    } else {
        named_key_code(ascii_lower_seq(k))
    }
}

/// Parses a human-readable key name into a Windows virtual-key code.
pub fn key_to_vk(key: &str) -> (r: Option<u32>)
    ensures
        r == key_to_vk_spec(key@),
{
    let raw = chars_of(key);
    let k = trim(raw.as_slice());
    if k.len() == 1 {
        let ch = ascii_upper_char(k[0]);
        if ('0' <= ch && ch <= '9') || ('A' <= ch && ch <= 'Z') || ('a' <= ch && ch <= 'z') {
            return Some(ch as u32);
        }
    }
    let lower = to_ascii_lower(k.as_slice());
    named_key_code_exec(lower.as_slice())
}

/// The state of a left-to-right scan of a hotkey combination.
#[derive(Clone, Copy, Debug, PartialEq, Eq)]
pub struct ComboScan {
    pub mods: u32,
    pub key: Option<u32>,
    pub failed: bool,
}

/// The modifier flag a (lower-case) part names, if it names one.
pub open spec fn modifier_flag(part: Seq<char>) -> Option<u32> {
    if part == "ctrl"@ || part == "control"@ {
        Some(MOD_CONTROL)
    } else if part == "alt"@ || part == "option"@ {
        Some(MOD_ALT)
    } else if part == "shift"@ {
        Some(MOD_SHIFT)
    } else if part == "super"@ || part == "win"@ || part == "meta"@ || part == "cmd"@ {
        Some(MOD_WIN)
    } else {
        None
    }
}

/// Law: each modifier name stands for its Win32 `MOD_*` flag: `ctrl` and
/// `control` for `MOD_CONTROL` (2), `alt` and `option` for `MOD_ALT` (1),
/// `shift` for `MOD_SHIFT` (4), `super`, `win`, `meta` and `cmd` for `MOD_WIN` (8).
pub proof fn lemma_modifier_names_are_win32_flags()
    ensures
        modifier_flag("ctrl"@) == Some(0x0002u32),
        modifier_flag("control"@) == Some(0x0002u32),
        modifier_flag("alt"@) == Some(0x0001u32),
        modifier_flag("option"@) == Some(0x0001u32),
        modifier_flag("shift"@) == Some(0x0004u32),
        modifier_flag("super"@) == Some(0x0008u32),
        modifier_flag("win"@) == Some(0x0008u32),
        modifier_flag("meta"@) == Some(0x0008u32),
        modifier_flag("cmd"@) == Some(0x0008u32),
{
    reveal_strlit("ctrl");
    assert("ctrl"@ =~= seq!['c', 't', 'r', 'l']);
    reveal_strlit("control");
    assert("control"@ =~= seq!['c', 'o', 'n', 't', 'r', 'o', 'l']);
    reveal_strlit("alt");
    assert("alt"@ =~= seq!['a', 'l', 't']);
    reveal_strlit("option");
    assert("option"@ =~= seq!['o', 'p', 't', 'i', 'o', 'n']);
    reveal_strlit("shift");
    assert("shift"@ =~= seq!['s', 'h', 'i', 'f', 't']);
    reveal_strlit("super");
    assert("super"@ =~= seq!['s', 'u', 'p', 'e', 'r']);
    reveal_strlit("win");
    assert("win"@ =~= seq!['w', 'i', 'n']);
    reveal_strlit("meta");
    assert("meta"@ =~= seq!['m', 'e', 't', 'a']);
    reveal_strlit("cmd");
    assert("cmd"@ =~= seq!['c', 'm', 'd']);
}

/// One `+`-separated part of a combination applied to the scan: empty parts
/// (after trimming) are skipped, modifiers are or-ed in, any other part must
/// be a key name (the last key wins) or the scan fails for good.
pub open spec fn scan_part(st: ComboScan, seg: Seq<char>) -> ComboScan {
    let part = trim_seq(seg);
    if st.failed || part.len() == 0 {
        st
    } else {
        match modifier_flag(ascii_lower_seq(part)) {
            Some(flag) => ComboScan { mods: st.mods | flag, ..st },
            None => match key_to_vk_spec(part) {
                Some(vk) => ComboScan { key: Some(vk), ..st },
                None => ComboScan { failed: true, ..st },
            },
        }
    }
}

/// Law: reading one part of a combination: a blank part changes nothing; a
/// modifier name adds its flag and keeps the key; a key name replaces the key
/// read so far (the last key wins) and keeps the modifiers; any other part
/// fails the scan, and a failed scan stays failed.
pub proof fn lemma_scan_part_effects(st: ComboScan, seg: Seq<char>)
    ensures
        st.failed ==> scan_part(st, seg) == st,
        trim_seq(seg).len() == 0 ==> scan_part(st, seg) == st,
        !st.failed && trim_seq(seg).len() > 0 ==> match modifier_flag(ascii_lower_seq(trim_seq(seg))) {
            Some(flag) => scan_part(st, seg) == ComboScan { mods: st.mods | flag, key: st.key, failed: false },
            None => match key_to_vk_spec(trim_seq(seg)) {
                Some(vk) => scan_part(st, seg) == ComboScan { mods: st.mods, key: Some(vk), failed: false },
                None => scan_part(st, seg).failed,
            },
        },
{
}

/// The scan of `s` from index `i`, with `cur` the part read so far.
pub open spec fn scan_from(s: Seq<char>, i: int, cur: Seq<char>, st: ComboScan) -> ComboScan
    decreases s.len() - i,
{
    if i >= s.len() {
        scan_part(st, cur)
    } else if s[i] == '+' {
        scan_from(s, i + 1, Seq::empty(), scan_part(st, cur))
    } else {
        scan_from(s, i + 1, cur.push(s[i]), st)
    }
}

/// The scan of a whole combination.
pub open spec fn scan_combo(combo: Seq<char>) -> ComboScan {
    scan_from(combo, 0, Seq::empty(), ComboScan { mods: 0, key: None, failed: false })
}

/// A combination like `Ctrl+Shift+V` as `(modifiers, virtual key)`: the
/// modifiers with `MOD_NOREPEAT` added; `None` when a part is neither a
/// modifier nor a key, or when there is no key.
pub open spec fn parse_hotkey_combo_spec(combo: Seq<char>) -> Option<(u32, u32)> {
    let st = scan_combo(combo);
    if st.failed {
        None
    } else {
        match st.key {
            Some(vk) => Some((st.mods | MOD_NOREPEAT, vk)),
            None => None,
        }
    }
}

fn scan_part_exec(st: ComboScan, seg: &[char]) -> (r: ComboScan)
    ensures
        r == scan_part(st, seg@),
{
    let part = trim(seg);
    if st.failed || part.len() == 0 {
        return st;
    }
    let lower = to_ascii_lower(part.as_slice());
    let l = lower.as_slice();
    if lit_eq(l, "ctrl") || lit_eq(l, "control") {
        ComboScan { mods: st.mods | MOD_CONTROL, ..st }
    } else if lit_eq(l, "alt") || lit_eq(l, "option") {
        ComboScan { mods: st.mods | MOD_ALT, ..st }
    } else if lit_eq(l, "shift") {
        ComboScan { mods: st.mods | MOD_SHIFT, ..st }
    } else if lit_eq(l, "super") || lit_eq(l, "win") || lit_eq(l, "meta") || lit_eq(l, "cmd") {
        ComboScan { mods: st.mods | MOD_WIN, ..st }
    } else {
        let part_str = string_from_chars(part.as_slice());
        proof {
            crate::text::lemma_trim_idempotent(seg@);
        }
        match key_to_vk(part_str.as_str()) {
            Some(vk) => ComboScan { key: Some(vk), ..st },
            None => ComboScan { failed: true, ..st },
        }
    }
}

/// Parses a combination like `Ctrl+Shift+V` into `(modifiers, vk)`.
pub fn parse_hotkey_combo(combo: &str) -> (r: Option<(u32, u32)>)
    ensures
        r == parse_hotkey_combo_spec(combo@),
{
    let s = chars_of(combo);
    let mut st = ComboScan { mods: 0, key: None, failed: false };
    let mut cur: Vec<char> = Vec::new();
    let mut i: usize = 0;
    while i < s.len()
        invariant
            i <= s@.len(),
            s@ == combo@,
            scan_from(s@, i as int, cur@, st) == scan_combo(combo@),
        decreases s@.len() - i,
    {
        if s[i] == '+' {
            st = scan_part_exec(st, cur.as_slice());
            cur = Vec::new();
        } else {
            cur.push(s[i]);
        }
        i = i + 1;
    }
    let st = scan_part_exec(st, cur.as_slice());
    if st.failed {
        None
    } else {
        match st.key {
            Some(vk) => Some((st.mods | MOD_NOREPEAT, vk)),
            None => None,
        }
    }
}

/// The combination is the middle mouse button (`MouseMiddle`, ignoring ASCII
/// case and surrounding white space).
pub open spec fn is_middle_mouse_spec(combo: Seq<char>) -> bool {
    ascii_lower_seq(trim_seq(combo)) == ascii_lower_seq("MouseMiddle"@)
}

/// Whether the combination is the middle mouse button.
pub fn is_middle_mouse_combo(combo: &str) -> (b: bool)
    ensures
        b == is_middle_mouse_spec(combo@),
{
    let raw = chars_of(combo);
    let t = trim(raw.as_slice());
    let a = to_ascii_lower(t.as_slice());
    let mm = chars_of("MouseMiddle");
    let b2 = to_ascii_lower(mm.as_slice());
    chars_eq(a.as_slice(), b2.as_slice())
}

/// Accepts the middle mouse button and every combination that parses;
/// otherwise returns the rejected combination, for the caller to report.
pub fn validate_hotkey(combo: &str) -> (r: Result<(), String>)
    ensures
        r is Ok <==> (is_middle_mouse_spec(combo@) || parse_hotkey_combo_spec(combo@) is Some),
        r matches Err(c) ==> c@ == combo@,
{
    if is_middle_mouse_combo(combo) || parse_hotkey_combo(combo).is_some() {
        Ok(())
    } else {
        Err(combo.to_owned())
    }
}

/// The notification code of a tray callback: the low word of its `lParam`.
pub fn tray_notification_code(lparam: isize) -> (c: u32)
    ensures
        c == (lparam as u32) & 0xffff,
{
    (lparam as u32) & 0xffff
}

/// The `AppsUseLightTheme` registry value means dark mode when it is 0.
pub fn apps_use_light_theme_to_dark(value: u32) -> (dark: bool)
    ensures
        dark == (value == 0),
{
    value == 0
}

/// The executable a shell command line names: the quoted path when the
/// (trimmed) line starts with a quoted string, otherwise its first
/// space-separated word.
pub open spec fn command_exe(command: Seq<char>) -> Seq<char> {
    let t = trim_seq(command);
    let rest = t.subrange(1, t.len() as int);
    if t.len() > 0 && t[0] == '"' && before_char(rest, '"').len() < rest.len() {
        before_char(rest, '"')
    } else {
        before_char(t, ' ')
    }
}

proof fn lemma_before_char_len(s: Seq<char>, sep: char)
    ensures
        before_char(s, sep).len() <= s.len(),
    decreases s.len(),
{
    if s.len() > 0 && s[0] != sep {
        lemma_before_char_len(s.subrange(1, s.len() as int), sep);
    }
}

/// Parses a shell command string like `"C:\path\app.exe" "%1"` into the
/// executable path.
pub fn parse_command_to_exe(command: &str) -> (r: String)
    ensures
        r@ == command_exe(command@),
{
    let raw = chars_of(command);
    let t = trim(raw.as_slice());
    if t.len() > 0 && t[0] == '"' {
        let mut rest: Vec<char> = Vec::new();
        let mut k: usize = 1;
        while k < t.len()
            invariant
                1 <= k <= t@.len(),
                rest@ == t@.subrange(1, k as int),
            decreases t@.len() - k,
        {
            rest.push(t[k]);
            k = k + 1;
            assert(rest@ =~= t@.subrange(1, k as int));
        }
        let quoted = prefix_before(rest.as_slice(), '"');
        if quoted.len() < rest.len() {
            return string_from_chars(quoted.as_slice());
        }
    }
    let word = prefix_before(t.as_slice(), ' ');
    string_from_chars(word.as_slice())
}

/// ASCII-case-insensitive equality (`str::eq_ignore_ascii_case`).
pub open spec fn eq_ignore_ascii_case(a: Seq<char>, b: Seq<char>) -> bool {
    ascii_lower_seq(a) == ascii_lower_seq(b)
}

/// An application choice by its name, command and default flag.
pub type ChoiceView = (Seq<char>, Seq<char>, bool);

/// The view of an application choice.
pub open spec fn choice_view(c: AppChoice) -> ChoiceView {
    (c.name@, c.command@, c.is_default)
}

/// The views of a list of application choices.
pub open spec fn choice_views(cs: Seq<AppChoice>) -> Seq<ChoiceView> {
    cs.map_values(|c: AppChoice| choice_view(c))
}

/// Some choice already runs this executable (ignoring ASCII case).
pub open spec fn has_command(choices: Seq<ChoiceView>, exe: Seq<char>) -> bool {
    exists|i: int| 0 <= i < choices.len() && eq_ignore_ascii_case(#[trigger] choices[i].1, exe)
}

/// Offering an application: only its executable is kept, and it is skipped
/// when that is blank or already offered.
pub open spec fn add_choice(before: Seq<ChoiceView>, name: Seq<char>, command: Seq<char>, is_default: bool) -> Seq<ChoiceView> {
    let exe = command_exe(command);
    if trim_seq(exe).len() == 0 || has_command(before, exe) {
        before
    } else {
        before.push((name, exe, is_default))
    }
}

fn ascii_eq_ignore_case(a: &[char], b: &[char]) -> (r: bool)
    ensures
        r == eq_ignore_ascii_case(a@, b@),
{
    let la = to_ascii_lower(a);
    let lb = to_ascii_lower(b);
    chars_eq(la.as_slice(), lb.as_slice())
}

/// Offers an application, by its executable, unless that is blank or
/// already offered.
pub fn push_app_choice(choices: &mut Vec<AppChoice>, name: String, command: String, is_default: bool)
    ensures
        choice_views(final(choices)@) == add_choice(choice_views(old(choices)@), name@, command@, is_default),
{
    let exe = parse_command_to_exe(command.as_str());
    let cmd_chars = chars_of(exe.as_str());
    let trimmed = trim(cmd_chars.as_slice());
    if trimmed.len() == 0 {
        return;
    }
    let ghost views = choice_views(choices@);
    let mut i: usize = 0;
    while i < choices.len()
        invariant
            i <= choices@.len(),
            choices@ == old(choices)@,
            views == choice_views(choices@),
            cmd_chars@ == command_exe(command@),
            forall|j: int| 0 <= j < i ==> !eq_ignore_ascii_case(#[trigger] views[j].1, cmd_chars@),
        decreases choices@.len() - i,
    {
        let other = chars_of(choices[i].command.as_str());
        if ascii_eq_ignore_case(other.as_slice(), cmd_chars.as_slice()) {
            assert(views[i as int].1 == other@);
            return;
        }
        i = i + 1;
    }
    choices.push(AppChoice { name, command: exe, is_default });
    assert(choice_views(final(choices)@) =~= views.push((name@, command_exe(command@), is_default)));
}

/// The file extension (or association class) used to find the system's
/// default application for a content type.
pub open spec fn extension_for_mime_spec(mime: Seq<char>) -> Option<Seq<char>> {
    if mime == "text/plain"@ {
        Some(".txt"@)
    } else if mime == "x-scheme-handler/http"@ || mime == "x-scheme-handler/https"@ {
        Some("http"@)
    } else if mime == "image/png"@ {
        Some(".png"@)
    } else if mime == "image/jpeg"@ {
        Some(".jpg"@)
    } else if mime == "video/mp4"@ {
        Some(".mp4"@)
    } else if mime == "application/octet-stream"@ {
        Some("Directory"@)
    } else {
        None
    }
}

/// Law: each content type of the table is looked up under its own file
/// extension or association class (`.txt` for plain text, `http` for web
/// links, `.png`, `.jpg`, `.mp4` for those media, `Directory` for folders).
pub proof fn lemma_mime_extensions()
    ensures
        extension_for_mime_spec("text/plain"@) == Some(".txt"@),
        extension_for_mime_spec("x-scheme-handler/http"@) == Some("http"@),
        extension_for_mime_spec("x-scheme-handler/https"@) == Some("http"@),
        extension_for_mime_spec("image/png"@) == Some(".png"@),
        extension_for_mime_spec("image/jpeg"@) == Some(".jpg"@),
        extension_for_mime_spec("video/mp4"@) == Some(".mp4"@),
        extension_for_mime_spec("application/octet-stream"@) == Some("Directory"@),
{
    reveal_strlit("text/plain");
    assert("text/plain"@ =~= seq!['t', 'e', 'x', 't', '/', 'p', 'l', 'a', 'i', 'n']);
    reveal_strlit("x-scheme-handler/http");
    assert("x-scheme-handler/http"@ =~= seq!['x', '-', 's', 'c', 'h', 'e', 'm', 'e', '-', 'h', 'a', 'n', 'd', 'l', 'e', 'r', '/', 'h', 't', 't', 'p']);
    reveal_strlit("x-scheme-handler/https");
    assert("x-scheme-handler/https"@ =~= seq!['x', '-', 's', 'c', 'h', 'e', 'm', 'e', '-', 'h', 'a', 'n', 'd', 'l', 'e', 'r', '/', 'h', 't', 't', 'p', 's']);
    reveal_strlit("image/png");
    assert("image/png"@ =~= seq!['i', 'm', 'a', 'g', 'e', '/', 'p', 'n', 'g']);
    reveal_strlit("image/jpeg");
    assert("image/jpeg"@ =~= seq!['i', 'm', 'a', 'g', 'e', '/', 'j', 'p', 'e', 'g']);
    reveal_strlit("video/mp4");
    assert("video/mp4"@ =~= seq!['v', 'i', 'd', 'e', 'o', '/', 'm', 'p', '4']);
    reveal_strlit("application/octet-stream");
    assert("application/octet-stream"@ =~= seq!['a', 'p', 'p', 'l', 'i', 'c', 'a', 't', 'i', 'o', 'n', '/', 'o', 'c', 't', 'e', 't', '-', 's', 't', 'r', 'e', 'a', 'm']);
}

/// See [`extension_for_mime_spec`].
pub fn extension_for_mime(mime: &str) -> (r: Option<&'static str>)
    ensures
        match r {
            Some(e) => extension_for_mime_spec(mime@) == Some(e@),
            None => extension_for_mime_spec(mime@) is None,
        },
{
    let m = chars_of(mime);
    let s = m.as_slice();
    if lit_eq(s, "text/plain") {
        Some(".txt")
    } else if lit_eq(s, "x-scheme-handler/http") || lit_eq(s, "x-scheme-handler/https") {
        Some("http")
    } else if lit_eq(s, "image/png") {
        Some(".png")
    } else if lit_eq(s, "image/jpeg") {
        Some(".jpg")
    } else if lit_eq(s, "video/mp4") {
        Some(".mp4")
    } else if lit_eq(s, "application/octet-stream") {
        Some("Directory")
    } else {
        None
    }
}

/// The built-in application suggested for a content type, as
/// `(name, command)`.
pub open spec fn common_choice(mime: Seq<char>) -> Option<(Seq<char>, Seq<char>)> {
    if mime == "application/octet-stream"@ {
        Some(("Explorer"@, "explorer.exe"@))
    } else if mime == "text/plain"@ {
        Some(("Notepad"@, "notepad.exe"@))
    } else if mime == "x-scheme-handler/http"@ || mime == "x-scheme-handler/https"@ {
        Some(("Microsoft Edge"@, "msedge.exe"@))
    } else if mime == "image/png"@ || mime == "image/jpeg"@ {
        Some(("Paint"@, "mspaint.exe"@))
    } else if mime == "video/mp4"@ {
        Some(("Windows Media Player"@, "wmplayer.exe"@))
    } else {
        None
    }
}

/// Law: the built-in application offered for each content type: Explorer for
/// folders, Notepad for plain text, Edge for web links, Paint for PNG and
/// JPEG images, Windows Media Player for MP4 video, and none for other types.
pub proof fn lemma_common_choices()
    ensures
        common_choice("application/octet-stream"@) == Some(("Explorer"@, "explorer.exe"@)),
        common_choice("text/plain"@) == Some(("Notepad"@, "notepad.exe"@)),
        common_choice("x-scheme-handler/http"@) == Some(("Microsoft Edge"@, "msedge.exe"@)),
        common_choice("x-scheme-handler/https"@) == Some(("Microsoft Edge"@, "msedge.exe"@)),
        common_choice("image/png"@) == Some(("Paint"@, "mspaint.exe"@)),
        common_choice("image/jpeg"@) == Some(("Paint"@, "mspaint.exe"@)),
        common_choice("video/mp4"@) == Some(("Windows Media Player"@, "wmplayer.exe"@)),
        common_choice("application/pdf"@) is None,
{
    reveal_strlit("application/octet-stream");
    assert("application/octet-stream"@ =~= seq!['a', 'p', 'p', 'l', 'i', 'c', 'a', 't', 'i', 'o', 'n', '/', 'o', 'c', 't', 'e', 't', '-', 's', 't', 'r', 'e', 'a', 'm']);
    reveal_strlit("text/plain");
    assert("text/plain"@ =~= seq!['t', 'e', 'x', 't', '/', 'p', 'l', 'a', 'i', 'n']);
    reveal_strlit("x-scheme-handler/http");
    assert("x-scheme-handler/http"@ =~= seq!['x', '-', 's', 'c', 'h', 'e', 'm', 'e', '-', 'h', 'a', 'n', 'd', 'l', 'e', 'r', '/', 'h', 't', 't', 'p']);
    reveal_strlit("x-scheme-handler/https");
    assert("x-scheme-handler/https"@ =~= seq!['x', '-', 's', 'c', 'h', 'e', 'm', 'e', '-', 'h', 'a', 'n', 'd', 'l', 'e', 'r', '/', 'h', 't', 't', 'p', 's']);
    reveal_strlit("image/png");
    assert("image/png"@ =~= seq!['i', 'm', 'a', 'g', 'e', '/', 'p', 'n', 'g']);
    reveal_strlit("image/jpeg");
    assert("image/jpeg"@ =~= seq!['i', 'm', 'a', 'g', 'e', '/', 'j', 'p', 'e', 'g']);
    reveal_strlit("video/mp4");
    assert("video/mp4"@ =~= seq!['v', 'i', 'd', 'e', 'o', '/', 'm', 'p', '4']);
    reveal_strlit("application/pdf");
    assert("application/pdf"@ =~= seq!['a', 'p', 'p', 'l', 'i', 'c', 'a', 't', 'i', 'o', 'n', '/', 'p', 'd', 'f']);
}

/// Offers the built-in Windows application for a content type, if any.
pub fn push_common_windows_choices(mime: &str, choices: &mut Vec<AppChoice>)
    ensures
        match common_choice(mime@) {
            Some((name, command)) => choice_views(final(choices)@) == add_choice(
                choice_views(old(choices)@),
                name,
                command,
                false,
            ),
            None => final(choices)@ == old(choices)@,
        },
{
    let m = chars_of(mime);
    let s = m.as_slice();
    if lit_eq(s, "application/octet-stream") {
        push_app_choice(choices, "Explorer".to_owned(), "explorer.exe".to_owned(), false);
    } else if lit_eq(s, "text/plain") {
        push_app_choice(choices, "Notepad".to_owned(), "notepad.exe".to_owned(), false);
    } else if lit_eq(s, "x-scheme-handler/http") || lit_eq(s, "x-scheme-handler/https") {
        push_app_choice(choices, "Microsoft Edge".to_owned(), "msedge.exe".to_owned(), false);
    } else if lit_eq(s, "image/png") || lit_eq(s, "image/jpeg") {
        push_app_choice(choices, "Paint".to_owned(), "mspaint.exe".to_owned(), false);
    } else if lit_eq(s, "video/mp4") {
        push_app_choice(choices, "Windows Media Player".to_owned(), "wmplayer.exe".to_owned(), false);
    }
}

/// Lexicographic order of character sequences by code point (which is the
/// byte order of their UTF-8 encodings, the order of `String`).
pub open spec fn seq_lt(a: Seq<char>, b: Seq<char>) -> bool
    decreases a.len(),
{
    if a.len() == 0 {
        b.len() > 0
    } else if b.len() == 0 {
        false
    } else if a[0] != b[0] {
        (a[0] as int) < (b[0] as int)
    } else {
        seq_lt(a.subrange(1, a.len() as int), b.subrange(1, b.len() as int))
    }
}

/// The sort key of a choice, `(!is_default, lower-cased name)`, of `a` is
/// greater than that of `b`: defaults come first, then names in order,
/// ignoring ASCII case.
pub open spec fn choice_key_gt(a: ChoiceView, b: ChoiceView) -> bool {
    if a.2 != b.2 {
        !a.2
    } else {
        seq_lt(ascii_lower_seq(b.0), ascii_lower_seq(a.0))
    }
}

/// Inserts `x` into a sorted list after every element whose key is not
/// greater than its own.
pub open spec fn sorted_insert(s: Seq<ChoiceView>, x: ChoiceView) -> Seq<ChoiceView>
    decreases s.len(),
{
    if s.len() == 0 {
        seq![x]
    } else if choice_key_gt(s[0], x) {
        seq![x] + s
    } else {
        seq![s[0]] + sorted_insert(s.subrange(1, s.len() as int), x)
    }
}

/// The stable sort by key (`slice::sort_by_key`): equal keys keep their
/// order.
pub open spec fn stable_sort(s: Seq<ChoiceView>) -> Seq<ChoiceView>
    decreases s.len(),
{
    if s.len() == 0 {
        s
    } else {
        sorted_insert(stable_sort(s.drop_last()), s.last())
    }
}

fn chars_lt(a: &[char], b: &[char]) -> (r: bool)
    ensures
        r == seq_lt(a@, b@),
{
    let mut i: usize = 0;
    assert(a@.subrange(0, a@.len() as int) =~= a@);
    assert(b@.subrange(0, b@.len() as int) =~= b@);
    while i < a.len() && i < b.len() && a[i] == b[i]
        invariant
            i <= a@.len(),
            i <= b@.len(),
            seq_lt(a@, b@) == seq_lt(a@.subrange(i as int, a@.len() as int), b@.subrange(i as int, b@.len() as int)),
        decreases a@.len() - i,
    {
        proof {
            let sa = a@.subrange(i as int, a@.len() as int);
            let sb = b@.subrange(i as int, b@.len() as int);
            assert(sa.subrange(1, sa.len() as int) =~= a@.subrange(i + 1, a@.len() as int));
            assert(sb.subrange(1, sb.len() as int) =~= b@.subrange(i + 1, b@.len() as int));
        }
        i = i + 1;
    }
    let ghost sa = a@.subrange(i as int, a@.len() as int);
    let ghost sb = b@.subrange(i as int, b@.len() as int);
    if i == a.len() {
        assert(sa.len() == 0);
        i < b.len()
    } else if i == b.len() {
        assert(sb.len() == 0);
        false
    } else {
        assert(sa[0] == a@[i as int] && sb[0] == b@[i as int]);
        a[i] < b[i]
    }
}

fn choice_key_gt_exec(a: &AppChoice, b: &AppChoice) -> (r: bool)
    ensures
        r == choice_key_gt(choice_view(*a), choice_view(*b)),
{
    if a.is_default != b.is_default {
        !a.is_default
    } else {
        let an = chars_of(a.name.as_str());
        let bn = chars_of(b.name.as_str());
        let la = to_ascii_lower(an.as_slice());
        let lb = to_ascii_lower(bn.as_slice());
        chars_lt(lb.as_slice(), la.as_slice())
    }
}

/// Sorts choices stably by `(!is_default, lower-cased name)`.
pub fn sort_choices(input: &Vec<AppChoice>) -> (r: Vec<AppChoice>)
    ensures
        choice_views(r@) == stable_sort(choice_views(input@)),
{
    let mut out: Vec<AppChoice> = Vec::new();
    let ghost iv = choice_views(input@);
    let mut i: usize = 0;
    assert(iv.subrange(0, 0) =~= Seq::<ChoiceView>::empty());
    while i < input.len()
        invariant
            i <= input@.len(),
            iv == choice_views(input@),
            choice_views(out@) == stable_sort(iv.subrange(0, i as int)),
        decreases input@.len() - i,
    {
        let x = input[i].clone();
        let ghost xv = choice_view(x);
        let ghost ov = choice_views(out@);
        let mut j: usize = 0;
        assert(ov.subrange(0, 0) + sorted_insert(ov.subrange(0, ov.len() as int), xv) =~= sorted_insert(ov, xv)) by {
            assert(ov.subrange(0, ov.len() as int) =~= ov);
        }
        while j < out.len() && !choice_key_gt_exec(&out[j], &x)
            invariant
                j <= out@.len(),
                ov == choice_views(out@),
                xv == choice_view(x),
                ov.subrange(0, j as int) + sorted_insert(ov.subrange(j as int, ov.len() as int), xv) == sorted_insert(ov, xv),
            decreases out@.len() - j,
        {
            proof {
                let t = ov.subrange(j as int, ov.len() as int);
                assert(t[0] == ov[j as int]);
                assert(t.subrange(1, t.len() as int) =~= ov.subrange(j + 1, ov.len() as int));
                assert(ov.subrange(0, j + 1) =~= ov.subrange(0, j as int) + seq![ov[j as int]]);
                assert(ov.subrange(0, j as int) + (seq![ov[j as int]] + sorted_insert(ov.subrange(j + 1, ov.len() as int), xv))
                    =~= ov.subrange(0, j + 1) + sorted_insert(ov.subrange(j + 1, ov.len() as int), xv));
            }
            j = j + 1;
        }
        proof {
            let t = ov.subrange(j as int, ov.len() as int);
            if j < ov.len() {
                assert(t[0] == ov[j as int]);
            }
            assert(ov.insert(j as int, xv) =~= ov.subrange(0, j as int) + sorted_insert(t, xv));
            assert(iv.subrange(0, i + 1).drop_last() =~= iv.subrange(0, i as int));
            assert(iv.subrange(0, i + 1).last() == xv);
        }
        out.insert(j, x);
        assert(choice_views(out@) =~= ov.insert(j as int, xv));
        i = i + 1;
    }
    assert(iv.subrange(0, input@.len() as int) =~= iv);
    out
}

/// Choices ordered by key: no choice has a greater key than one after it.
pub open spec fn choices_ordered(s: Seq<ChoiceView>) -> bool {
    forall|i: int, j: int| 0 <= i < j < s.len() ==> !choice_key_gt(#[trigger] s[i], #[trigger] s[j])
}

proof fn lemma_seq_lt_strict_total(a: Seq<char>, b: Seq<char>)
    ensures
        a != b ==> (seq_lt(a, b) || seq_lt(b, a)),
        !(seq_lt(a, b) && seq_lt(b, a)),
        !seq_lt(a, a),
    decreases a.len(),
{
    if a.len() == 0 || b.len() == 0 {
        if a.len() == 0 && b.len() == 0 {
            assert(a =~= b);
        }
        if a.len() > 0 {
            lemma_seq_lt_strict_total(a.subrange(1, a.len() as int), a.subrange(1, a.len() as int));
        }
    } else {
        let at = a.subrange(1, a.len() as int);
        let bt = b.subrange(1, b.len() as int);
        lemma_seq_lt_strict_total(at, bt);
        lemma_seq_lt_strict_total(at, at);
        if a[0] == b[0] && at == bt {
            assert(a =~= seq![a[0]] + at);
            assert(b =~= seq![b[0]] + bt);
        }
    }
}

proof fn lemma_seq_lt_transitive(a: Seq<char>, b: Seq<char>, c: Seq<char>)
    requires
        seq_lt(a, b),
        seq_lt(b, c),
    ensures
        seq_lt(a, c),
    decreases a.len(),
{
    if a.len() > 0 && a[0] == b[0] && b[0] == c[0] {
        lemma_seq_lt_transitive(
            a.subrange(1, a.len() as int),
            b.subrange(1, b.len() as int),
            c.subrange(1, c.len() as int),
        );
    }
}

proof fn lemma_choice_key_order(a: ChoiceView, b: ChoiceView, c: ChoiceView)
    ensures
        choice_key_gt(a, b) ==> !choice_key_gt(b, a),
        !choice_key_gt(a, b) && !choice_key_gt(b, c) ==> !choice_key_gt(a, c),
{
    let na = ascii_lower_seq(a.0);
    let nb = ascii_lower_seq(b.0);
    let nc = ascii_lower_seq(c.0);
    lemma_seq_lt_strict_total(na, nb);
    lemma_seq_lt_strict_total(nb, nc);
    lemma_seq_lt_strict_total(na, nc);
    if seq_lt(na, nb) && seq_lt(nb, nc) {
        lemma_seq_lt_transitive(na, nb, nc);
    }
}

proof fn lemma_sorted_insert(s: Seq<ChoiceView>, x: ChoiceView)
    requires
        choices_ordered(s),
    ensures
        choices_ordered(sorted_insert(s, x)),
        sorted_insert(s, x).len() == s.len() + 1,
        forall|k: int| 0 <= k < sorted_insert(s, x).len() ==> #[trigger] sorted_insert(s, x)[k] == x
            || s.contains(sorted_insert(s, x)[k]),
        sorted_insert(s, x).to_multiset() == s.to_multiset().insert(x),
    decreases s.len(),
{
    broadcast use vstd::seq_lib::group_to_multiset_ensures;
    let r = sorted_insert(s, x);
    if s.len() == 0 {
        assert(r =~= seq![x]);
        assert(seq![x] =~= Seq::<ChoiceView>::empty().push(x));
        assert(s =~= Seq::<ChoiceView>::empty());
    } else if choice_key_gt(s[0], x) {
        assert forall|i: int, j: int| 0 <= i < j < r.len() implies !choice_key_gt(#[trigger] r[i], #[trigger] r[j]) by {
            if i == 0 {
                lemma_choice_key_order(s[0], x, x);
                lemma_choice_key_order(x, s[0], s[j - 1]);
                if j - 1 > 0 {
                    assert(!choice_key_gt(s[0], s[j - 1]));
                }
            } else {
                assert(r[i] == s[i - 1] && r[j] == s[j - 1]);
            }
        }
        assert forall|k: int| 0 <= k < r.len() implies #[trigger] r[k] == x || s.contains(r[k]) by {
            if k > 0 {
                assert(r[k] == s[k - 1]);
            }
        }
        assert(r =~= seq![x] + s);
        lemma_multiset_prepend(s, x);
    } else {
        let t = s.subrange(1, s.len() as int);
        assert forall|i: int, j: int| 0 <= i < j < t.len() implies !choice_key_gt(#[trigger] t[i], #[trigger] t[j]) by {
            assert(t[i] == s[i + 1] && t[j] == s[j + 1]);
        }
        lemma_sorted_insert(t, x);
        let rt = sorted_insert(t, x);
        assert(r =~= seq![s[0]] + rt);
        assert forall|i: int, j: int| 0 <= i < j < r.len() implies !choice_key_gt(#[trigger] r[i], #[trigger] r[j]) by {
            if i == 0 {
                let y = rt[j - 1];
                assert(y == x || t.contains(y));
                if y != x {
                    let k = choose|k: int| 0 <= k < t.len() && t[k] == y;
                    assert(s[k + 1] == y);
                }
            } else {
                assert(r[i] == rt[i - 1] && r[j] == rt[j - 1]);
            }
        }
        assert forall|k: int| 0 <= k < r.len() implies #[trigger] r[k] == x || s.contains(r[k]) by {
            if k == 0 {
                assert(s[0] == r[0]);
            } else {
                let y = rt[k - 1];
                assert(r[k] == y);
                if y != x {
                    assert(t.contains(y));
                    let m = choose|m: int| 0 <= m < t.len() && t[m] == y;
                    assert(s[m + 1] == y);
                }
            }
        }
        assert(s =~= seq![s[0]] + t);
        lemma_multiset_prepend(t, s[0]);
        lemma_multiset_prepend(rt, s[0]);
        assert(t.to_multiset().insert(x).insert(s[0]) =~= t.to_multiset().insert(s[0]).insert(x));
    }
}

proof fn lemma_multiset_prepend(s: Seq<ChoiceView>, x: ChoiceView)
    ensures
        (seq![x] + s).to_multiset() == s.to_multiset().insert(x),
    decreases s.len(),
{
    broadcast use vstd::seq_lib::group_to_multiset_ensures;
    if s.len() == 0 {
        assert(seq![x] + s =~= Seq::<ChoiceView>::empty().push(x));
        assert(s =~= Seq::<ChoiceView>::empty());
    } else {
        lemma_multiset_prepend(s.drop_last(), x);
        assert(seq![x] + s =~= (seq![x] + s.drop_last()).push(s.last()));
        assert(s =~= s.drop_last().push(s.last()));
        assert(s.drop_last().to_multiset().insert(x).insert(s.last()) =~= s.drop_last().to_multiset().insert(
            s.last(),
        ).insert(x));
    }
}

/// Law: sorting choices puts them in key order (defaults first, then by
/// name ignoring ASCII case) and neither adds nor loses a choice.
pub proof fn lemma_sort_choices_ordered(s: Seq<ChoiceView>)
    ensures
        choices_ordered(stable_sort(s)),
        stable_sort(s).to_multiset() == s.to_multiset(),
    decreases s.len(),
{
    broadcast use vstd::seq_lib::group_to_multiset_ensures;
    if s.len() == 0 {
    } else {
        lemma_sort_choices_ordered(s.drop_last());
        lemma_sorted_insert(stable_sort(s.drop_last()), s.last());
        assert(s =~= s.drop_last().push(s.last()));
    }
}

/// Gathering further choices: each is offered (not as a default) until the
/// list holds 200 choices.
pub open spec fn gather_choices(cur: Seq<ChoiceView>, more: Seq<ChoiceView>, i: int) -> Seq<ChoiceView>
    decreases more.len() - i,
{
    if i >= more.len() || i < 0 {
        cur
    } else {
        let next = add_choice(cur, more[i].0, more[i].1, false);
        if next.len() >= 200 {
            next
        } else {
            gather_choices(next, more, i + 1)
        }
    }
}

/// The applications offered for a content type: the system default (when
/// the type has an association and one was found), the built-in suggestion,
/// then the other installed applications until 200 are listed, sorted with
/// defaults first and then by name.
pub open spec fn assemble_spec(mime: Seq<char>, default_choice: Option<ChoiceView>, installed: Seq<ChoiceView>) -> Seq<ChoiceView> {
    let with_default = match (extension_for_mime_spec(mime), default_choice) {
        (Some(_), Some(d)) => add_choice(Seq::empty(), d.0, d.1, true),
        _ => Seq::empty(),
    };
    let with_common = match common_choice(mime) {
        Some((name, command)) => add_choice(with_default, name, command, false),
        None => with_default,
    };
    stable_sort(gather_choices(with_common, installed, 0))
}

/// Assembles the applications offered for a content type from the system's
/// default application and the installed ones (see [`assemble_spec`]).
pub fn assemble_app_choices(mime: &str, default_choice: Option<AppChoice>, installed: Vec<AppChoice>) -> (r: Vec<AppChoice>)
    ensures
        choice_views(r@) == assemble_spec(
            mime@,
            match default_choice { Some(d) => Some(choice_view(d)), None => None },
            choice_views(installed@),
        ),
{
    let mut choices: Vec<AppChoice> = Vec::new();
    assert(choice_views(choices@) =~= Seq::<ChoiceView>::empty());
    match extension_for_mime(mime) {
        Some(_) => match default_choice {
            Some(d) => push_app_choice(&mut choices, d.name, d.command, true),
            None => {},
        },
        None => {},
    }
    push_common_windows_choices(mime, &mut choices);
    let ghost more = choice_views(installed@);
    let ghost start = choice_views(choices@);
    let mut i: usize = 0;
    while i < installed.len()
        invariant_except_break
            i <= installed@.len(),
            more == choice_views(installed@),
            gather_choices(choice_views(choices@), more, i as int) == gather_choices(start, more, 0),
        ensures
            choice_views(choices@) == gather_choices(start, more, 0),
        decreases installed@.len() - i,
    {
        let c = installed[i].clone();
        let ghost before = choice_views(choices@);
        assert(more[i as int] == choice_view(c));
        push_app_choice(&mut choices, c.name, c.command, false);
        if choices.len() >= 200 {
            assert(gather_choices(before, more, i as int) == choice_views(choices@));
            break;
        }
        assert(gather_choices(before, more, i as int) == gather_choices(choice_views(choices@), more, i + 1));
        i = i + 1;
    }
    sort_choices(&choices)
}

// ---------------------------------------------------------------------------
// Hotkey registration plan
// ---------------------------------------------------------------------------

/// A keyboard hotkey to register.
#[derive(Clone, Copy, Debug, PartialEq, Eq, Structural)]
pub struct HotkeyBinding {
    pub mods: u32,
    pub vk: u32,
    pub action: HotkeyAction,
}

/// What a hotkey configuration asks to register: keyboard hotkeys in
/// registration order, and the action bound to the middle mouse button.
#[derive(Clone, Debug)]
pub struct HotkeyPlan {
    pub bindings: Vec<HotkeyBinding>,
    pub middle_mouse: Option<HotkeyAction>,
}

/// The plan so far: bindings and the middle-mouse action.
pub type PlanView = (Seq<HotkeyBinding>, Option<HotkeyAction>);

/// One (trimmed) combination added to a plan: the middle mouse button binds
/// the action (a main hotkey always, another only when the button is still
/// free); a combination that parses becomes a binding; anything else is
/// ignored.
pub open spec fn plan_combo(p: PlanView, combo: Seq<char>, action: HotkeyAction, main: bool) -> PlanView {
    if is_middle_mouse_spec(combo) {
        (p.0, if main || p.1 is None {
            Some(action)
        } else {
            p.1
        })
    } else {
        match parse_hotkey_combo_spec(combo) {
            Some((mods, vk)) => (p.0.push(HotkeyBinding { mods, vk, action }), p.1),
            None => p,
        }
    }
}

/// The plan of the main hotkeys (each toggles the window), one per line.
pub open spec fn plan_main(lines: Seq<Seq<char>>) -> PlanView
    decreases lines.len(),
{
    if lines.len() == 0 {
        (Seq::empty(), None)
    } else {
        plan_combo(plan_main(lines.drop_last()), lines.last(), HotkeyAction::ToggleWindow, true)
    }
}

/// A single-combination hotkey added to a plan: skipped when blank.
pub open spec fn plan_single(p: PlanView, combo: Seq<char>, action: HotkeyAction) -> PlanView {
    let c = trim_seq(combo);
    if c.len() == 0 {
        p
    } else {
        plan_combo(p, c, action, false)
    }
}

/// The registration plan of a configuration: the main hotkeys (trimmed,
/// non-blank lines), then sequential paste, rich paste, search, private
/// mode and the snippet picker.
pub open spec fn hotkey_plan_spec(cfg: HotkeyConfig) -> PlanView {
    let p0 = plan_main(nonblank_pieces(cfg.main_hotkeys@, 0, '\n'));
    let p1 = plan_single(p0, cfg.sequential_hotkey@, HotkeyAction::SequentialPaste);
    let p2 = plan_single(p1, cfg.rich_paste_hotkey@, HotkeyAction::RichPaste);
    let p3 = plan_single(p2, cfg.search_hotkey@, HotkeyAction::FocusSearch);
    let p4 = plan_single(p3, cfg.private_mode_hotkey@, HotkeyAction::TogglePrivateMode);
    plan_single(p4, cfg.snippet_picker_hotkey@, HotkeyAction::SnippetPicker)
}

fn plan_combo_exec(plan: &mut HotkeyPlan, combo: &str, action: HotkeyAction, main: bool)
    ensures
        (final(plan).bindings@, final(plan).middle_mouse) == plan_combo(
            (old(plan).bindings@, old(plan).middle_mouse),
            combo@,
            action,
            main,
        ),
{
    if is_middle_mouse_combo(combo) {
        if main || plan.middle_mouse.is_none() {
            plan.middle_mouse = Some(action);
        }
        return;
    }
    match parse_hotkey_combo(combo) {
        Some((mods, vk)) => {
            plan.bindings.push(HotkeyBinding { mods, vk, action });
        },
        None => {},
    }
}

fn plan_single_exec(plan: &mut HotkeyPlan, combo: &str, action: HotkeyAction)
    ensures
        (final(plan).bindings@, final(plan).middle_mouse) == plan_single(
            (old(plan).bindings@, old(plan).middle_mouse),
            combo@,
            action,
        ),
{
    let raw = chars_of(combo);
    let t = trim(raw.as_slice());
    if t.len() == 0 {
        return;
    }
    let c = string_from_chars(t.as_slice());
    plan_combo_exec(plan, c.as_str(), action, false);
}

/// The hotkeys a configuration asks to register (see [`hotkey_plan_spec`]).
pub fn hotkey_plan(config: &HotkeyConfig) -> (r: HotkeyPlan)
    ensures
        (r.bindings@, r.middle_mouse) == hotkey_plan_spec(*config),
{
    let mut plan = HotkeyPlan { bindings: Vec::new(), middle_mouse: None };
    let raw = chars_of(config.main_hotkeys.as_str());
    let lines = split_nonblank(raw.as_slice(), '\n');
    let ghost lv = line_views(lines@);
    let mut i: usize = 0;
    assert(lv.subrange(0, 0) =~= Seq::<Seq<char>>::empty());
    while i < lines.len()
        invariant
            i <= lines@.len(),
            lv == line_views(lines@),
            (plan.bindings@, plan.middle_mouse) == plan_main(lv.subrange(0, i as int)),
        decreases lines@.len() - i,
    {
        let combo = string_from_chars(lines[i].as_slice());
        proof {
            let p = lv.subrange(0, i + 1);
            assert(p.drop_last() =~= lv.subrange(0, i as int));
            assert(p.last() == combo@);
        }
        plan_combo_exec(&mut plan, combo.as_str(), HotkeyAction::ToggleWindow, true);
        i = i + 1;
    }
    assert(lv.subrange(0, lv.len() as int) =~= lv);
    plan_single_exec(&mut plan, config.sequential_hotkey.as_str(), HotkeyAction::SequentialPaste);
    plan_single_exec(&mut plan, config.rich_paste_hotkey.as_str(), HotkeyAction::RichPaste);
    plan_single_exec(&mut plan, config.search_hotkey.as_str(), HotkeyAction::FocusSearch);
    plan_single_exec(&mut plan, config.private_mode_hotkey.as_str(), HotkeyAction::TogglePrivateMode);
    plan_single_exec(&mut plan, config.snippet_picker_hotkey.as_str(), HotkeyAction::SnippetPicker);
    plan
}

proof fn lemma_plan_main_mouse(lines: Seq<Seq<char>>, k: int)
    requires
        0 <= k < lines.len(),
        is_middle_mouse_spec(lines[k]),
    ensures
        plan_main(lines).1 == Some(HotkeyAction::ToggleWindow),
    decreases lines.len(),
{
    if k < lines.len() - 1 {
        lemma_plan_main_mouse(lines.drop_last(), k);
    }
}

/// Law: when a main hotkey line is the middle mouse button, the button
/// toggles the window, whatever the other hotkeys say.
pub proof fn lemma_main_middle_mouse_wins(cfg: HotkeyConfig, k: int)
    requires
        0 <= k < nonblank_pieces(cfg.main_hotkeys@, 0, '\n').len(),
        is_middle_mouse_spec(nonblank_pieces(cfg.main_hotkeys@, 0, '\n')[k]),
    ensures
        hotkey_plan_spec(cfg).1 == Some(HotkeyAction::ToggleWindow),
{
    lemma_plan_main_mouse(nonblank_pieces(cfg.main_hotkeys@, 0, '\n'), k);
}

/// Law: a plan holds at most one keyboard binding per configured
/// combination (each main hotkey line and the five single hotkeys).
pub proof fn lemma_plan_size(cfg: HotkeyConfig)
    ensures
        hotkey_plan_spec(cfg).0.len() <= nonblank_pieces(cfg.main_hotkeys@, 0, '\n').len() + 5,
{
    lemma_plan_main_size(nonblank_pieces(cfg.main_hotkeys@, 0, '\n'));
}

proof fn lemma_plan_main_size(lines: Seq<Seq<char>>)
    ensures
        plan_main(lines).0.len() <= lines.len(),
    decreases lines.len(),
{
    if lines.len() > 0 {
        lemma_plan_main_size(lines.drop_last());
    }
}

// ---------------------------------------------------------------------------
// Tray icon and hotkey events
// ---------------------------------------------------------------------------

/// `WM_LBUTTONUP`.
pub const WM_LBUTTONUP: u32 = 0x0202;
/// `WM_RBUTTONUP`.
pub const WM_RBUTTONUP: u32 = 0x0205;
/// The tray menu's "show / hide" item.
pub const MENU_ITEM_SHOW_HIDE: usize = 1;
/// The tray menu's "settings" item.
pub const MENU_ITEM_SETTINGS: usize = 2;
/// The tray menu's "quit" item.
pub const MENU_ITEM_QUIT: usize = 3;

/// What a click on the tray icon does.
#[derive(Clone, Copy, Debug, PartialEq, Eq, Structural)]
pub enum TrayClick {
    /// Show or hide the main window.
    ToggleWindow,
    /// Open the tray menu.
    ShowMenu,
    /// Nothing.
    Ignore,
}

/// What an item of the tray menu asks for.
#[derive(Clone, Copy, Debug, PartialEq, Eq, Structural)]
pub enum TrayCommand {
    ToggleWindow,
    OpenSettings,
    Quit,
}

/// A tray callback's notification code: a left click toggles the window, a
/// right click opens the menu, anything else is ignored.
pub fn tray_click(code: u32) -> (r: TrayClick)
    ensures
        code == WM_LBUTTONUP ==> r == TrayClick::ToggleWindow,
        code == WM_RBUTTONUP ==> r == TrayClick::ShowMenu,
        code != WM_LBUTTONUP && code != WM_RBUTTONUP ==> r == TrayClick::Ignore,
{
    if code == WM_LBUTTONUP {
        TrayClick::ToggleWindow
    } else if code == WM_RBUTTONUP {
        TrayClick::ShowMenu
    } else {
        TrayClick::Ignore
    }
}

/// The command of the tray menu item that was picked (0 when the menu was
/// dismissed, which picks nothing).
pub fn tray_menu_command(item: usize) -> (r: Option<TrayCommand>)
    ensures
        item == MENU_ITEM_SHOW_HIDE ==> r == Some(TrayCommand::ToggleWindow),
        item == MENU_ITEM_SETTINGS ==> r == Some(TrayCommand::OpenSettings),
        item == MENU_ITEM_QUIT ==> r == Some(TrayCommand::Quit),
        item != MENU_ITEM_SHOW_HIDE && item != MENU_ITEM_SETTINGS && item != MENU_ITEM_QUIT ==> r is None,
{
    if item == MENU_ITEM_SHOW_HIDE {
        Some(TrayCommand::ToggleWindow)
    } else if item == MENU_ITEM_SETTINGS {
        Some(TrayCommand::OpenSettings)
    } else if item == MENU_ITEM_QUIT {
        Some(TrayCommand::Quit)
    } else {
        None
    }
}

/// Hotkeys that bring the main window up (when it is hidden or minimised)
/// before their event is sent: toggling the window, focusing search and the
/// snippet picker.
pub fn hotkey_wakes_window(action: HotkeyAction) -> (r: bool)
    ensures
        r == (action == HotkeyAction::ToggleWindow || action == HotkeyAction::FocusSearch
            || action == HotkeyAction::SnippetPicker),
{
    match action {
        HotkeyAction::ToggleWindow | HotkeyAction::FocusSearch | HotkeyAction::SnippetPicker => true,
        _ => false,
    }
}

/// The middle mouse button fires its action on a press: when it is down now
/// and was not down at the previous poll, and an action is bound to it.
pub fn middle_mouse_fires(is_down: bool, was_down: bool, action: Option<HotkeyAction>) -> (r: Option<HotkeyAction>)
    ensures
        r == (if is_down && !was_down { action } else { None }),
{
    if is_down && !was_down {
        action
    } else {
        None
    }
}

// ---------------------------------------------------------------------------
// Paste simulation
// ---------------------------------------------------------------------------

/// `VK_SHIFT`.
pub const VK_SHIFT: u16 = 0x10;
/// `VK_CONTROL`.
pub const VK_CONTROL: u16 = 0x11;
/// `VK_MENU` (Alt).
pub const VK_MENU: u16 = 0x12;
/// `VK_INSERT`.
pub const VK_INSERT: u16 = 0x2d;
/// The `V` key.
pub const VK_V: u16 = 0x56;

/// One simulated keyboard event.
#[derive(Clone, Copy, Debug, PartialEq, Eq, Structural)]
pub enum KeyStroke {
    /// A virtual key pressed (`up` false) or released.
    Key { vk: u16, up: bool },
    /// A UTF-16 unit typed as a Unicode key event, pressed or released.
    Unicode { unit: u16, up: bool },
}

/// The key presses of a chord `modifier + key`: modifier down, key down,
/// key up, modifier up.
pub open spec fn chord_spec(modifier: u16, key: u16) -> Seq<KeyStroke> {
    seq![
        KeyStroke::Key { vk: modifier, up: false },
        KeyStroke::Key { vk: key, up: false },
        KeyStroke::Key { vk: key, up: true },
        KeyStroke::Key { vk: modifier, up: true },
    ]
}

fn chord(modifier: u16, key: u16) -> (r: Vec<KeyStroke>)
    ensures
        r@ == chord_spec(modifier, key),
{
    let mut v: Vec<KeyStroke> = Vec::new();
    v.push(KeyStroke::Key { vk: modifier, up: false });
    v.push(KeyStroke::Key { vk: key, up: false });
    v.push(KeyStroke::Key { vk: key, up: true });
    v.push(KeyStroke::Key { vk: modifier, up: true });
    assert(v@ =~= chord_spec(modifier, key));
    v
}

/// Releasing the modifier keys before a simulated paste: Ctrl, Shift and
/// Alt up.
pub fn release_modifier_strokes() -> (r: Vec<KeyStroke>)
    ensures
        r@ == seq![
            KeyStroke::Key { vk: VK_CONTROL, up: true },
            KeyStroke::Key { vk: VK_SHIFT, up: true },
            KeyStroke::Key { vk: VK_MENU, up: true },
        ],
{
    let mut v: Vec<KeyStroke> = Vec::new();
    v.push(KeyStroke::Key { vk: VK_CONTROL, up: true });
    v.push(KeyStroke::Key { vk: VK_SHIFT, up: true });
    v.push(KeyStroke::Key { vk: VK_MENU, up: true });
    v
}

/// The key strokes of a Ctrl+V paste.
pub fn ctrl_v_strokes() -> (r: Vec<KeyStroke>)
    ensures
        r@ == chord_spec(VK_CONTROL, VK_V),
{
    chord(VK_CONTROL, VK_V)
}

/// The key strokes of a Shift+Insert paste.
pub fn shift_insert_strokes() -> (r: Vec<KeyStroke>)
    ensures
        r@ == chord_spec(VK_SHIFT, VK_INSERT),
{
    chord(VK_SHIFT, VK_INSERT)
}

/// Typing a text: each character, as its code point truncated to 16 bits,
/// pressed and released as a Unicode key event.
pub open spec fn unicode_strokes_spec(s: Seq<char>) -> Seq<KeyStroke>
    decreases s.len(),
{
    if s.len() == 0 {
        Seq::empty()
    } else {
        let unit = ((s.last() as u32) % 0x10000) as u16;
        unicode_strokes_spec(s.drop_last()) + seq![
            KeyStroke::Unicode { unit, up: false },
            KeyStroke::Unicode { unit, up: true },
        ]
    }
}

/// The key strokes that type a text (see [`unicode_strokes_spec`]).
pub fn unicode_text_strokes(text: &str) -> (r: Vec<KeyStroke>)
    ensures
        r@ == unicode_strokes_spec(text@),
{
    let cs = chars_of(text);
    let mut out: Vec<KeyStroke> = Vec::new();
    let mut i: usize = 0;
    while i < cs.len()
        invariant
            i <= cs@.len(),
            cs@ == text@,
            out@ == unicode_strokes_spec(cs@.subrange(0, i as int)),
        decreases cs@.len() - i,
    {
        let c = cs[i];
        proof {
            vstd::utf8::char_is_scalar(c);
        }
        let unit = ((c as u32) % 0x10000) as u16;
        let ghost before = out@;
        out.push(KeyStroke::Unicode { unit, up: false });
        out.push(KeyStroke::Unicode { unit, up: true });
        proof {
            let p = cs@.subrange(0, i + 1);
            assert(p.drop_last() =~= cs@.subrange(0, i as int));
            assert(p.last() == c);
            assert(out@ =~= before + seq![
                KeyStroke::Unicode { unit, up: false },
                KeyStroke::Unicode { unit, up: true },
            ]);
        }
        i = i + 1;
    }
    assert(cs@.subrange(0, cs@.len() as int) =~= cs@);
    out
}

/// What a simulated paste sends after releasing the modifiers: Ctrl+V,
/// Shift+Insert, or (for `TypeText`) the clipboard text typed out, which
/// is `None` here; `Auto` uses Ctrl+V when formatted paste is preferred and
/// Shift+Insert otherwise.
pub fn paste_strokes(method: PasteMethod, prefer_formatted: bool) -> (r: Option<Vec<KeyStroke>>)
    ensures
        match method {
            PasteMethod::CtrlV => r matches Some(v) && v@ == chord_spec(VK_CONTROL, VK_V),
            PasteMethod::ShiftInsert => r matches Some(v) && v@ == chord_spec(VK_SHIFT, VK_INSERT),
            PasteMethod::TypeText => r is None,
            PasteMethod::Auto => r matches Some(v) && v@ == (if prefer_formatted {
                chord_spec(VK_CONTROL, VK_V)
            } else {
                chord_spec(VK_SHIFT, VK_INSERT)
            }),
        },
{
    match method {
        PasteMethod::CtrlV => Some(ctrl_v_strokes()),
        PasteMethod::ShiftInsert => Some(shift_insert_strokes()),
        PasteMethod::TypeText => None,
        PasteMethod::Auto => if prefer_formatted {
            Some(ctrl_v_strokes())
        } else {
            Some(shift_insert_strokes())
        },
    }
}

} // verus!
