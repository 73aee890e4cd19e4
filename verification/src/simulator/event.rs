//! Events exchanged between the simulator page and its host, and the mapping
//! from browser keyboard events to simulator keys.
use vstd::prelude::*;
use crate::text::{ascii_lower, chars_eq, chars_of, lower_ascii, push_char, str_eq};

verus! {

/// Name of the host event that announces a mirrored simulator.
pub const SIMULATOR_READY_EVENT: &'static str = "simulator_ready";

/// What the host tells the page once a simulator is mirrored.
#[derive(Clone, Debug, Default, PartialEq)]
pub struct SimulatorReady {
    pub port: u16,
    pub version: String,
    pub device_name: String,
}

/// Phase of a pointer touch forwarded to the simulator.
#[derive(Clone, Copy, Debug, Default, PartialEq, Eq, Structural)]
pub enum SimulatorTouchPhase {
    #[default]
    Down,
    Move,
    Up,
    Cancel,
}

/// A key sent to the simulator: typed text, a HID usage code, or a hardware button.
#[derive(Clone, Debug, PartialEq)]
pub enum SimulatorKey {
    Text(String),
    Code(u16),
    Button(HardwareButton),
}

/// A hardware button of the simulated device.
#[derive(Clone, Copy, Debug, PartialEq, Eq, Structural)]
pub enum HardwareButton {
    Home,
    Lock,
    Siri,
}

/// A clipboard shortcut forwarded to the simulator.
#[derive(Clone, Copy, Debug, PartialEq, Eq, Structural)]
pub enum SimulatorClipboardAction {
    Copy,
    Paste,
}

/// The command-line argument that names a hardware button.
pub open spec fn button_arg(button: HardwareButton) -> Seq<char> {
    match button {
        HardwareButton::Home => "home"@,
        HardwareButton::Lock => "lock"@,
        HardwareButton::Siri => "siri"@,
    }
}

impl HardwareButton {
    /// The argument the simulator tooling takes for this button.
    pub fn as_arg(&self) -> (r: &'static str)
        ensures
            r@ == button_arg(*self),
    {
        match self {
            HardwareButton::Home => "home",
            HardwareButton::Lock => "lock",
            HardwareButton::Siri => "siri",
        }
    }
}

/// The HID usage code of a named browser key that has no text.
pub open spec fn named_key_code(key: Seq<char>) -> Option<u16> {
    if key == "Enter"@ {
        Some(40u16)
    } else if key == "Escape"@ {
        Some(41u16)
    } else if key == "Backspace"@ {
        Some(42u16)
    } else if key == "Tab"@ {
        Some(43u16)
    } else if key == "ArrowRight"@ {
        Some(79u16)
    } else if key == "ArrowLeft"@ {
        Some(80u16)
    } else if key == "ArrowDown"@ {
        Some(81u16)
    } else if key == "ArrowUp"@ {
        Some(82u16)
    } else {
        None
    }
}

/// What a browser `KeyboardEvent.key` value becomes: a HID code for the named
/// keys above, typed text for a single character, nothing otherwise.
pub open spec fn browser_key_result(key: Seq<char>, r: Option<SimulatorKey>) -> bool {
    match named_key_code(key) {
        Some(code) => r == Some(SimulatorKey::Code(code)),
        None => if key.len() == 1 {
            r matches Some(SimulatorKey::Text(t)) && t@ == key
        } else {
            r is None
        },
    }
}

impl SimulatorKey {
    /// Maps a browser `KeyboardEvent.key` to a simulator key.
    pub fn of_browser_key(key: &str) -> (r: Option<Self>)
        ensures
            browser_key_result(key@, r),
    {
        let code: u16 = if str_eq(key, "Enter") {
            40
        } else if str_eq(key, "Escape") {
            41
        } else if str_eq(key, "Backspace") {
            42
        } else if str_eq(key, "Tab") {
            43
        } else if str_eq(key, "ArrowRight") {
            79
        } else if str_eq(key, "ArrowLeft") {
            80
        } else if str_eq(key, "ArrowDown") {
            81
        } else if str_eq(key, "ArrowUp") {
            82
        } else {
            let chars = chars_of(key);
            if chars.len() != 1 {
                return None;
            }
            let mut text = String::new();
            push_char(&mut text, chars[0]);
            assert(text@ =~= key@);
            return Some(SimulatorKey::Text(text));
        };
        Some(SimulatorKey::Code(code))
    }
}

/// A keystroke from the page's keyboard handler, with its modifiers.
pub struct Keystroke;

/// Whether the lowercased key is exactly the given one-letter text.
pub open spec fn key_is(key: Seq<char>, letter: Seq<char>) -> bool {
    ascii_lower(key) == letter
}

/// What a keystroke becomes: with ⌘ (and neither Ctrl nor Alt) the letters
/// h, l and s press Home, Lock and Siri and every other key is ignored; any
/// other modifier drops the key; an unmodified key maps as a browser key.
pub open spec fn keystroke_result(
    key: Seq<char>,
    meta: bool,
    ctrl: bool,
    alt: bool,
    r: Option<SimulatorKey>,
) -> bool {
    if meta && !ctrl && !alt {
        r == if key_is(key, "h"@) {
            Some(SimulatorKey::Button(HardwareButton::Home))
        } else if key_is(key, "l"@) {
            Some(SimulatorKey::Button(HardwareButton::Lock))
        } else if key_is(key, "s"@) {
            Some(SimulatorKey::Button(HardwareButton::Siri))
        } else {
            None
        }
    } else if meta || ctrl || alt {
        r is None
    } else {
        browser_key_result(key, r)
    }
}

/// Whether the lowercased key equals the given literal.
fn lower_key_is(lowered: &[char], letter: &str) -> (r: bool)
    ensures
        r == (lowered@ == letter@),
{
    let l = chars_of(letter);
    chars_eq(lowered, l.as_slice())
}

impl Keystroke {
    /// Maps a key with its modifier state to a simulator key.
    pub fn of(key: &str, meta: bool, ctrl: bool, alt: bool) -> (r: Option<SimulatorKey>)
        ensures
            keystroke_result(key@, meta, ctrl, alt, r),
            meta && !ctrl && !alt ==> (r == Some(SimulatorKey::Button(HardwareButton::Home)) <==> letter_key(
                key@,
                'h',
                'H',
            )),
            meta && !ctrl && !alt ==> (r == Some(SimulatorKey::Button(HardwareButton::Lock)) <==> letter_key(
                key@,
                'l',
                'L',
            )),
            meta && !ctrl && !alt ==> (r == Some(SimulatorKey::Button(HardwareButton::Siri)) <==> letter_key(
                key@,
                's',
                'S',
            )),
    {
        let r = if meta && !ctrl && !alt {
            let chars = chars_of(key);
            let lowered = lower_ascii(chars.as_slice());
            if lower_key_is(lowered.as_slice(), "h") {
                Some(SimulatorKey::Button(HardwareButton::Home))
            } else if lower_key_is(lowered.as_slice(), "l") {
                Some(SimulatorKey::Button(HardwareButton::Lock))
            } else if lower_key_is(lowered.as_slice(), "s") {
                Some(SimulatorKey::Button(HardwareButton::Siri))
            } else {
                None
            }
        } else if meta || ctrl || alt {
            None
        } else {
            SimulatorKey::of_browser_key(key)
        };
        proof {
            if meta && !ctrl && !alt {
                lemma_hardware_button_letters(key@, ctrl, alt, r);
            }
        }
        r
    }
}

/// A clipboard shortcut pressed on the page.
pub struct ClipboardShortcut;

/// ⌘C copies and ⌘V pastes; with any other modifier held nothing happens.
pub open spec fn clipboard_shortcut(
    key: Seq<char>,
    meta: bool,
    ctrl: bool,
    alt: bool,
    shift: bool,
) -> Option<SimulatorClipboardAction> {
    if !meta || ctrl || alt || shift {
        None
    } else if key_is(key, "c"@) {
        Some(SimulatorClipboardAction::Copy)
    } else if key_is(key, "v"@) {
        Some(SimulatorClipboardAction::Paste)
    } else {
        None
    }
}

impl ClipboardShortcut {
    /// The clipboard action of a key with its modifier state, if any.
    pub fn of(key: &str, meta: bool, ctrl: bool, alt: bool, shift: bool) -> (r: Option<
        SimulatorClipboardAction,
    >)
        ensures
            r == clipboard_shortcut(key@, meta, ctrl, alt, shift),
            r == Some(SimulatorClipboardAction::Copy) <==> (meta && !ctrl && !alt && !shift && letter_key(key@, 'c', 'C')),
            r == Some(SimulatorClipboardAction::Paste) <==> (meta && !ctrl && !alt && !shift && letter_key(key@, 'v', 'V')),
    {
        proof {
            lemma_clipboard_letters(key@, meta, ctrl, alt, shift);
        }
        if !meta || ctrl || alt || shift {
            return None;
        }
        let chars = chars_of(key);
        let lowered = lower_ascii(chars.as_slice());
        if lower_key_is(lowered.as_slice(), "c") {
            Some(SimulatorClipboardAction::Copy)
        } else if lower_key_is(lowered.as_slice(), "v") {
            Some(SimulatorClipboardAction::Paste)
        } else {
            None
        }
    }
}

/// The key is the one letter `lower`, typed in either case.
pub open spec fn letter_key(key: Seq<char>, lower: char, upper: char) -> bool {
    key == seq![lower] || key == seq![upper]
}

proof fn lemma_key_is_letter(key: Seq<char>, text: Seq<char>, lower: char, upper: char)
    requires
        text == seq![lower],
        'a' <= lower <= 'z',
        upper as u32 + 32 == lower as u32,
    ensures
        key_is(key, text) <==> letter_key(key, lower, upper),
{
    let low = ascii_lower(key);
    if letter_key(key, lower, upper) {
        assert(low.len() == 1);
        assert(low[0] == ascii_lower_char_of(key[0]));
        assert(low =~= text);
    }
    if key_is(key, text) {
        assert(low.len() == key.len());
        assert(key.len() == 1);
        let c = key[0];
        assert(low[0] == crate::text::ascii_lower_char(c));
        if 'A' <= c && c <= 'Z' {
            assert(((c as u32) + 32) as char == lower);
            assert(c as u32 == upper as u32);
            assert(key =~= seq![upper]);
        } else {
            assert(c == lower);
            assert(key =~= seq![lower]);
        }
    }
}

proof fn lemma_letters_differ(key: Seq<char>, a: char, b: char, c: char, d: char)
    requires
        a != c && a != d && b != c && b != d,
    ensures
        !(letter_key(key, a, b) && letter_key(key, c, d)),
{
    if letter_key(key, a, b) && letter_key(key, c, d) {
        assert(key[0] == a || key[0] == b);
        assert(key[0] == c || key[0] == d);
    }
}

spec fn ascii_lower_char_of(c: char) -> char {
    crate::text::ascii_lower_char(c)
}

/// With ⌘ alone held, `c` (in either case) copies and `v` pastes; nothing
/// else is a clipboard shortcut.
pub proof fn lemma_clipboard_letters(key: Seq<char>, meta: bool, ctrl: bool, alt: bool, shift: bool)
    ensures
        clipboard_shortcut(key, meta, ctrl, alt, shift) == Some(SimulatorClipboardAction::Copy) <==> (meta && !ctrl
            && !alt && !shift && letter_key(key, 'c', 'C')),
        clipboard_shortcut(key, meta, ctrl, alt, shift) == Some(SimulatorClipboardAction::Paste) <==> (meta && !ctrl
            && !alt && !shift && letter_key(key, 'v', 'V')),
{
    reveal_strlit("c");
    reveal_strlit("v");
    assert("c"@ =~= seq!['c']);
    lemma_key_is_letter(key, "c"@, 'c', 'C');
    assert("v"@ =~= seq!['v']);
    lemma_key_is_letter(key, "v"@, 'v', 'V');
    lemma_letters_differ(key, 'c', 'C', 'v', 'V');
}

/// With ⌘ held and neither Ctrl nor Alt, `h`, `l` and `s` (in either case)
/// press Home, Lock and Siri, and every other key is dropped.
pub proof fn lemma_hardware_button_letters(key: Seq<char>, ctrl: bool, alt: bool, r: Option<SimulatorKey>)
    requires
        keystroke_result(key, true, ctrl, alt, r),
        !ctrl && !alt,
    ensures
        letter_key(key, 'h', 'H') <==> r == Some(SimulatorKey::Button(HardwareButton::Home)),
        letter_key(key, 'l', 'L') <==> r == Some(SimulatorKey::Button(HardwareButton::Lock)),
        letter_key(key, 's', 'S') <==> r == Some(SimulatorKey::Button(HardwareButton::Siri)),
        !letter_key(key, 'h', 'H') && !letter_key(key, 'l', 'L') && !letter_key(key, 's', 'S') <==> r is None,
{
    reveal_strlit("h");
    reveal_strlit("l");
    reveal_strlit("s");
    assert("h"@ =~= seq!['h']);
    lemma_key_is_letter(key, "h"@, 'h', 'H');
    assert("l"@ =~= seq!['l']);
    lemma_key_is_letter(key, "l"@, 'l', 'L');
    assert("s"@ =~= seq!['s']);
    lemma_key_is_letter(key, "s"@, 's', 'S');
    lemma_letters_differ(key, 'h', 'H', 'l', 'L');
    lemma_letters_differ(key, 'h', 'H', 's', 'S');
    lemma_letters_differ(key, 'l', 'L', 's', 'S');
}

/// The named keys are the HID usages of the keyboard page: Enter 0x28,
/// Escape 0x29, Backspace 0x2A, Tab 0x2B, and the arrows Right, Left,
/// Down, Up at 0x4F to 0x52; no other key has a code.
pub proof fn lemma_named_keys_are_hid_usages(key: Seq<char>)
    ensures
        key == "Enter"@ ==> named_key_code(key) == Some(0x28u16),
        key == "Escape"@ ==> named_key_code(key) == Some(0x29u16),
        key == "Backspace"@ ==> named_key_code(key) == Some(0x2Au16),
        key == "Tab"@ ==> named_key_code(key) == Some(0x2Bu16),
        key == "ArrowRight"@ ==> named_key_code(key) == Some(0x4Fu16),
        key == "ArrowLeft"@ ==> named_key_code(key) == Some(0x50u16),
        key == "ArrowDown"@ ==> named_key_code(key) == Some(0x51u16),
        key == "ArrowUp"@ ==> named_key_code(key) == Some(0x52u16),
        named_key_code(key) is Some <==> (key == "Enter"@ || key == "Escape"@ || key == "Backspace"@ || key
            == "Tab"@ || key == "ArrowRight"@ || key == "ArrowLeft"@ || key == "ArrowDown"@ || key == "ArrowUp"@),
{
    reveal_strlit("Enter");
    reveal_strlit("Escape");
    reveal_strlit("Backspace");
    reveal_strlit("Tab");
    reveal_strlit("ArrowRight");
    reveal_strlit("ArrowLeft");
    reveal_strlit("ArrowDown");
    reveal_strlit("ArrowUp");
    assert("Enter"@.len() == 5 && "Escape"@.len() == 6 && "Backspace"@.len() == 9 && "Tab"@.len() == 3);
    assert("ArrowRight"@.len() == 10 && "ArrowLeft"@.len() == 9 && "ArrowDown"@.len() == 9 && "ArrowUp"@.len() == 7);
    assert("Backspace"@[0] != "ArrowLeft"@[0] && "Backspace"@[0] != "ArrowDown"@[0]);
    assert("ArrowLeft"@[5] != "ArrowDown"@[5]);
}

} // verus!
