//! Key symbols and modifier bits that the engine names itself.

use vstd::prelude::*;
use vstd::string::*;
use crate::text::push_char;
use crate::text::same_text;

verus! {

/// Symbol of a key, as the keymap gives it.
pub type Keysym = u32;

/// Code of a physical key.
pub type Keycode = u8;

pub const XK_ESCAPE: Keysym = 0xff1b;

pub const XK_RETURN: Keysym = 0xff0d;

pub const XK_A: Keysym = 0x0061;

pub const XK_D: Keysym = 0x0064;

pub const XK_F: Keysym = 0x0066;

pub const XK_J: Keysym = 0x006a;

pub const XK_K: Keysym = 0x006b;

pub const XK_N: Keysym = 0x006e;

pub const XK_Q: Keysym = 0x0071;

pub const XK_R: Keysym = 0x0072;

pub const XK_1: Keysym = 0x0031;

pub const XK_CAPITAL_Q: Keysym = 0x0051;

/// Modifier bits of a key or button event.
pub const SHIFT: u16 = 1;

pub const LOCK: u16 = 2;

pub const CONTROL: u16 = 4;

pub const MOD1: u16 = 8;

pub const MOD2: u16 = 16;

pub const MOD3: u16 = 32;

pub const MOD4: u16 = 64;

pub const MOD5: u16 = 128;

/// The modifier bits that are state, not intent: caps lock and num lock.
pub const LOCK_BITS: u16 = 18;

/// The modifier state without the lock bits.
pub open spec fn clean(state: u16) -> u16 {
    state & !LOCK_BITS
}

/// Computes `clean`.
pub fn clean_state(state: u16) -> (cleaned: u16)
    ensures
        cleaned == clean(state),
{
    state & !LOCK_BITS
}

/// Name of a key as it is shown: the character for a key of a
/// printable character but the space, a name for the keys the engine
/// names itself, and a question mark otherwise.
pub open spec fn key_name(keysym: Keysym) -> Seq<char> {
    if 0x21 <= keysym <= 0x7e {
        seq![keysym as u8 as char]
    } else if keysym == 0x20 {
        "space"@
    } else if keysym == 0xff0d {
        "Return"@
    } else if keysym == 0xff1b {
        "Escape"@
    } else if keysym == 0xff09 {
        "Tab"@
    } else if keysym == 0xff08 {
        "BackSpace"@
    } else {
        "?"@
    }
}

/// Computes `key_name`.
pub fn format_keysym(keysym: Keysym) -> (name: String)
    ensures
        name@ == key_name(keysym),
{
    if 0x21 <= keysym && keysym <= 0x7e {
        let mut name = String::new();
        push_char(&mut name, keysym as u8 as char);
        assert(name@ =~= seq![keysym as u8 as char]);
        name
    } else if keysym == 0x20 {
        String::from_str("space")
    } else if keysym == 0xff0d {
        String::from_str("Return")
    } else if keysym == 0xff1b {
        String::from_str("Escape")
    } else if keysym == 0xff09 {
        String::from_str("Tab")
    } else if keysym == 0xff08 {
        String::from_str("BackSpace")
    } else {
        String::from_str("?")
    }
}

/// Code of a character, the capital letters of ASCII folded onto the small
/// ones.
pub open spec fn folded(character: char) -> u32 {
    if 0x41 <= character as u32 && character as u32 <= 0x5a {
        (character as u32 + 0x20) as u32
    } else {
        character as u32
    }
}

/// The symbol of a function key, `F1` to `F12`, written without a leading
/// zero.
pub open spec fn function_key(name: Seq<char>) -> Option<Keysym> {
    if name.len() == 2 && name[0] == 'F' && 0x31 <= name[1] as u32 && name[1] as u32 <= 0x39 {
        Some((0xffbd + (name[1] as u32 - 0x30)) as u32)
    } else if name.len() == 3 && name[0] == 'F' && name[1] == '1' && 0x30 <= name[2] as u32
        && name[2] as u32 <= 0x32 {
        Some((0xffbd + 10 + (name[2] as u32 - 0x30)) as u32)
    } else {
        None
    }
}

/// The symbol of a key that goes by a word.
pub open spec fn word_key(name: Seq<char>) -> Option<Keysym> {
    if name == "Return"@ {
        Some(0xff0du32)
    } else if name == "Enter"@ {
        Some(0xff0du32)
    } else if name == "Escape"@ {
        Some(0xff1bu32)
    } else if name == "Space"@ {
        Some(0x20u32)
    } else if name == "space"@ {
        Some(0x20u32)
    } else if name == "Tab"@ {
        Some(0xff09u32)
    } else if name == "BackSpace"@ {
        Some(0xff08u32)
    } else if name == "Backspace"@ {
        Some(0xff08u32)
    } else if name == "Delete"@ {
        Some(0xffffu32)
    } else if name == "Home"@ {
        Some(0xff50u32)
    } else if name == "Left"@ {
        Some(0xff51u32)
    } else if name == "Up"@ {
        Some(0xff52u32)
    } else if name == "Right"@ {
        Some(0xff53u32)
    } else if name == "Down"@ {
        Some(0xff54u32)
    } else if name == "PageUp"@ {
        Some(0xff55u32)
    } else if name == "Prior"@ {
        Some(0xff55u32)
    } else if name == "PageDown"@ {
        Some(0xff56u32)
    } else if name == "Next"@ {
        Some(0xff56u32)
    } else if name == "End"@ {
        Some(0xff57u32)
    } else if name == "Insert"@ {
        Some(0xff63u32)
    } else if name == "Print"@ {
        Some(0xff61u32)
    } else if name == "Comma"@ {
        Some(0x2cu32)
    } else if name == "Period"@ {
        Some(0x2eu32)
    } else if name == "Slash"@ {
        Some(0x2fu32)
    } else if name == "Minus"@ {
        Some(0x2du32)
    } else if name == "Equal"@ {
        Some(0x3du32)
    } else if name == "Semicolon"@ {
        Some(0x3bu32)
    } else if name == "Apostrophe"@ {
        Some(0x27u32)
    } else if name == "Grave"@ {
        Some(0x60u32)
    } else if name == "BracketLeft"@ {
        Some(0x5bu32)
    } else if name == "BracketRight"@ {
        Some(0x5du32)
    } else if name == "Backslash"@ {
        Some(0x5cu32)
    } else if name == "AudioRaiseVolume"@ {
        Some(0x1008ff13u32)
    } else if name == "AudioLowerVolume"@ {
        Some(0x1008ff11u32)
    } else if name == "AudioMute"@ {
        Some(0x1008ff12u32)
    } else if name == "MonBrightnessUp"@ {
        Some(0x1008ff02u32)
    } else if name == "MonBrightnessDown"@ {
        Some(0x1008ff03u32)
    } else {
        None
    }
}

/// The symbol of the key that a name stands for in a binding.  A single
/// character of Latin-1 names its own key, whichever its case; then come the
/// function keys and the keys that go by a word.
pub open spec fn keysym_named(name: Seq<char>) -> Option<Keysym> {
    if name.len() == 1 && 0x20 <= folded(name[0]) && folded(name[0]) <= 0xff {
        Some(folded(name[0]))
    } else if function_key(name).is_some() {
        function_key(name)
    } else {
        word_key(name)
    }
}

/// Computes `folded`.
fn fold(character: char) -> (code: u32)
    ensures
        code == folded(character),
{
    let code: u32 = character as u32;
    if 0x41 <= code && code <= 0x5a {
        code + 0x20
    } else {
        code
    }
}

/// Computes `function_key`.
fn key_of_function(name: &str) -> (keysym: Option<Keysym>)
    ensures
        keysym == function_key(name@),
{
    let length: usize = name.unicode_len();
    if length < 2 || length > 3 || name.get_char(0) != 'F' {
        return None;
    }
    let last: u32 = name.get_char(length - 1) as u32;
    if length == 2 {
        if 0x31 <= last && last <= 0x39 {
            Some(0xffbd + (last - 0x30))
        } else {
            None
        }
    } else if name.get_char(1) == '1' && 0x30 <= last && last <= 0x32 {
        Some(0xffbd + 10 + (last - 0x30))
    } else {
        None
    }
}

/// Computes `word_key`.
fn key_of_word(name: &str) -> (keysym: Option<Keysym>)
    ensures
        keysym == word_key(name@),
{
    if same_text(name, "Return") {
        Some(0xff0du32)
    } else if same_text(name, "Enter") {
        Some(0xff0du32)
    } else if same_text(name, "Escape") {
        Some(0xff1bu32)
    } else if same_text(name, "Space") {
        Some(0x20u32)
    } else if same_text(name, "space") {
        Some(0x20u32)
    } else if same_text(name, "Tab") {
        Some(0xff09u32)
    } else if same_text(name, "BackSpace") {
        Some(0xff08u32)
    } else if same_text(name, "Backspace") {
        Some(0xff08u32)
    } else if same_text(name, "Delete") {
        Some(0xffffu32)
    } else if same_text(name, "Home") {
        Some(0xff50u32)
    } else if same_text(name, "Left") {
        Some(0xff51u32)
    } else if same_text(name, "Up") {
        Some(0xff52u32)
    } else if same_text(name, "Right") {
        Some(0xff53u32)
    } else if same_text(name, "Down") {
        Some(0xff54u32)
    } else if same_text(name, "PageUp") {
        Some(0xff55u32)
    } else if same_text(name, "Prior") {
        Some(0xff55u32)
    } else if same_text(name, "PageDown") {
        Some(0xff56u32)
    } else if same_text(name, "Next") {
        Some(0xff56u32)
    } else if same_text(name, "End") {
        Some(0xff57u32)
    } else if same_text(name, "Insert") {
        Some(0xff63u32)
    } else if same_text(name, "Print") {
        Some(0xff61u32)
    } else if same_text(name, "Comma") {
        Some(0x2cu32)
    } else if same_text(name, "Period") {
        Some(0x2eu32)
    } else if same_text(name, "Slash") {
        Some(0x2fu32)
    } else if same_text(name, "Minus") {
        Some(0x2du32)
    } else if same_text(name, "Equal") {
        Some(0x3du32)
    } else if same_text(name, "Semicolon") {
        Some(0x3bu32)
    } else if same_text(name, "Apostrophe") {
        Some(0x27u32)
    } else if same_text(name, "Grave") {
        Some(0x60u32)
    } else if same_text(name, "BracketLeft") {
        Some(0x5bu32)
    } else if same_text(name, "BracketRight") {
        Some(0x5du32)
    } else if same_text(name, "Backslash") {
        Some(0x5cu32)
    } else if same_text(name, "AudioRaiseVolume") {
        Some(0x1008ff13u32)
    } else if same_text(name, "AudioLowerVolume") {
        Some(0x1008ff11u32)
    } else if same_text(name, "AudioMute") {
        Some(0x1008ff12u32)
    } else if same_text(name, "MonBrightnessUp") {
        Some(0x1008ff02u32)
    } else if same_text(name, "MonBrightnessDown") {
        Some(0x1008ff03u32)
    } else {
        None
    }
}

/// Computes `keysym_named`.
pub fn keysym_from_str(name: &str) -> (keysym: Option<Keysym>)
    ensures
        keysym == keysym_named(name@),
{
    if name.unicode_len() == 1 {
        let code: u32 = fold(name.get_char(0));
        if 0x20 <= code && code <= 0xff {
            return Some(code);
        }
    }
    let function = key_of_function(name);
    if function.is_some() {
        function
    } else {
        key_of_word(name)
    }
}

} // verus!
