//! The simulator host's bookkeeping: what it announces to the page, the
//! key and button requests of agents, the keyboard overlay's keys, and
//! the screenshots it takes.
use vstd::prelude::*;
use crate::simulator::command::Invocation;
use crate::simulator::device::{png_dimensions, version_text, Axe, SimulatorDevice};
use crate::simulator::event::{
    button_arg, lemma_named_keys_are_hid_usages, named_key_code, HardwareButton, SimulatorKey, SimulatorReady,
};
use crate::simulator::input::{key_args, DeviceKey};
use crate::text::{push_str, radix, radix_digits, seq_starts_with, str_eq, chars_of, chars_start_with};

verus! {

/// The prefix of the simulator page's URLs.
pub const URL_PREFIX: &'static str = "vmux://simulator/";

/// What the host tells the page once a device is mirrored: the stream's
/// port, the device's iOS version and its name; all empty until then.
pub open spec fn ready_payload(port: Option<u16>, device: Option<SimulatorDevice>, r: SimulatorReady) -> bool {
    match (port, device) {
        (Some(p), Some(d)) => {
            &&& r.port == p
            &&& r.version@ == match d.version {
                Some(v) => version_text(v),
                None => Seq::empty(),
            }
            &&& r.device_name@ == d.name@
        },
        _ => r.port == 0 && r.version@.len() == 0 && r.device_name@.len() == 0,
    }
}

/// What the host tells the page, given the stream's port and the device.
pub fn ready_for(port: Option<u16>, device: Option<&SimulatorDevice>) -> (r: SimulatorReady)
    ensures
        ready_payload(port, match device {
            Some(d) => Some(*d),
            None => None,
        }, r),
{
    match (port, device) {
        (Some(p), Some(d)) => SimulatorReady {
            port: p,
            version: match &d.version {
                Some(v) => v.text(),
                None => String::new(),
            },
            device_name: d.name.clone(),
        },
        _ => SimulatorReady { port: 0, version: String::new(), device_name: String::new() },
    }
}

/// Whether two announcements are the same.
pub fn same_ready(a: &SimulatorReady, b: &SimulatorReady) -> (r: bool)
    ensures
        r == (a.port == b.port && a.version@ == b.version@ && a.device_name@ == b.device_name@),
{
    a.port == b.port && str_eq(a.version.as_str(), b.version.as_str()) && str_eq(
        a.device_name.as_str(),
        b.device_name.as_str(),
    )
}

/// Whether a page must be told: it is a simulator page, it was not told
/// this already, and it can be sent events.
pub fn should_announce(url: &str, told: Option<&SimulatorReady>, payload: &SimulatorReady, can_emit: bool) -> (r: bool)
    ensures
        r == (seq_starts_with(url@, URL_PREFIX@) && !(told matches Some(t) && t.port == payload.port && t.version@
            == payload.version@ && t.device_name@ == payload.device_name@) && can_emit),
{
    let cs = chars_of(url);
    let prefix = chars_of(URL_PREFIX);
    if !chars_start_with(cs.as_slice(), prefix.as_slice()) {
        return false;
    }
    if let Some(t) = told {
        if same_ready(t, payload) {
            return false;
        }
    }
    can_emit
}

/// A request of an agent that acts without coordinates.
#[derive(Clone, Debug, PartialEq, Eq)]
pub enum KeyControl {
    TypeText(String),
    Key(u8),
    Button(HardwareButton),
}

/// The key a request sends.
pub open spec fn control_key(action: KeyControl) -> SimulatorKey {
    match action {
        KeyControl::TypeText(t) => SimulatorKey::Text(t),
        KeyControl::Key(k) => SimulatorKey::Code(k as u16),
        KeyControl::Button(b) => SimulatorKey::Button(b),
    }
}

/// What the agent is told when its request was carried out.
pub open spec fn control_reply(action: KeyControl) -> Seq<char> {
    match action {
        KeyControl::TypeText(_) => "typed text into simulator"@,
        KeyControl::Key(k) => "pressed simulator keycode "@ + radix_digits(k as nat, 10),
        KeyControl::Button(_) => "pressed simulator hardware button"@,
    }
}

/// Carries out a key request: the `axe` call and the reply, or why it
/// cannot be (no device attached, or no `axe`).
pub fn dispatch_key_control(action: KeyControl, device: Option<&SimulatorDevice>, axe: Option<&Axe>) -> (r: Result<(Invocation, String), String>)
    ensures
        match (device, axe) {
            (None, _) => r matches Err(m) && m@ == "no iOS Simulator is attached"@,
            (Some(_), None) => r matches Err(m) && m@ == "simulator input is unavailable"@,
            (Some(d), Some(a)) => r matches Ok((call, reply)) && call.runs(
                a.location(),
                key_args(control_key(action)) + seq!["--udid"@, d.udid@],
            ) && reply@ == control_reply(action),
        },
{
    let device = match device {
        Some(d) => d,
        None => return Err("no iOS Simulator is attached".to_owned()),
    };
    let axe = match axe {
        Some(a) => a,
        None => return Err("simulator input is unavailable".to_owned()),
    };
    let reply = match &action {
        KeyControl::TypeText(_) => "typed text into simulator".to_owned(),
        KeyControl::Key(k) => {
            let mut m = "pressed simulator keycode ".to_owned();
            let digits = radix(*k as u64, 10);
            push_str(&mut m, digits.as_str());
            m
        },
        KeyControl::Button(_) => "pressed simulator hardware button".to_owned(),
    };
    let key = match action {
        KeyControl::TypeText(t) => SimulatorKey::Text(t),
        KeyControl::Key(k) => SimulatorKey::Code(k as u16),
        KeyControl::Button(b) => SimulatorKey::Button(b),
    };
    let call = DeviceKey::resolve(&key, device).dispatch(axe);
    Ok((call, reply))
}

/// What a key pressed in the keyboard overlay does.
#[derive(Clone, Debug, PartialEq)]
pub enum CaptureKey {
    /// Close the overlay.
    Close,
    /// Send this key to the device.
    Send(SimulatorKey),
    /// Let the text field handle it.
    Pass,
}

/// The overlay's keys: Escape closes it; Backspace in an empty field,
/// Enter, Tab and the arrows go to the device as HID codes; the others
/// edit the field.
pub open spec fn capture_key_spec(key: Seq<char>, draft_empty: bool) -> CaptureKey {
    if key == "Escape"@ {
        CaptureKey::Close
    } else if key == "Backspace"@ && draft_empty {
        CaptureKey::Send(SimulatorKey::Code(42))
    } else if key == "Enter"@ {
        CaptureKey::Send(SimulatorKey::Code(40))
    } else if key == "Tab"@ {
        CaptureKey::Send(SimulatorKey::Code(43))
    } else if key == "ArrowRight"@ {
        CaptureKey::Send(SimulatorKey::Code(79))
    } else if key == "ArrowLeft"@ {
        CaptureKey::Send(SimulatorKey::Code(80))
    } else if key == "ArrowDown"@ {
        CaptureKey::Send(SimulatorKey::Code(81))
    } else if key == "ArrowUp"@ {
        CaptureKey::Send(SimulatorKey::Code(82))
    } else {
        CaptureKey::Pass
    }
}

/// What a key pressed in the keyboard overlay does.
pub fn capture_key(key: &str, draft_empty: bool) -> (r: CaptureKey)
    ensures
        r == capture_key_spec(key@, draft_empty),
        key@ != "Escape"@ && key@ != "Backspace"@ ==> r == match named_key_code(key@) {
            Some(c) => CaptureKey::Send(SimulatorKey::Code(c)),
            None => CaptureKey::Pass,
        },
{
    proof {
        lemma_overlay_sends_browser_key_codes(key@, draft_empty);
    }
    if str_eq(key, "Escape") {
        CaptureKey::Close
    } else if str_eq(key, "Backspace") && draft_empty {
        CaptureKey::Send(SimulatorKey::Code(42))
    } else if str_eq(key, "Enter") {
        CaptureKey::Send(SimulatorKey::Code(40))
    } else if str_eq(key, "Tab") {
        CaptureKey::Send(SimulatorKey::Code(43))
    } else if str_eq(key, "ArrowRight") {
        CaptureKey::Send(SimulatorKey::Code(79))
    } else if str_eq(key, "ArrowLeft") {
        CaptureKey::Send(SimulatorKey::Code(80))
    } else if str_eq(key, "ArrowDown") {
        CaptureKey::Send(SimulatorKey::Code(81))
    } else if str_eq(key, "ArrowUp") {
        CaptureKey::Send(SimulatorKey::Code(82))
    } else {
        CaptureKey::Pass
    }
}

/// The keyboard overlay sends the device the same HID code a browser key
/// maps to (Enter, Tab, the arrows, and Backspace when the field is
/// empty); Escape closes it; every other key edits the field.
pub proof fn lemma_overlay_sends_browser_key_codes(key: Seq<char>, draft_empty: bool)
    ensures
        key == "Escape"@ ==> capture_key_spec(key, draft_empty) == CaptureKey::Close,
        key == "Backspace"@ ==> capture_key_spec(key, draft_empty) == if draft_empty {
            CaptureKey::Send(SimulatorKey::Code(named_key_code(key)->0))
        } else {
            CaptureKey::Pass
        },
        key != "Escape"@ && key != "Backspace"@ ==> capture_key_spec(key, draft_empty) == match named_key_code(key) {
            Some(c) => CaptureKey::Send(SimulatorKey::Code(c)),
            None => CaptureKey::Pass,
        },
{
    lemma_named_keys_are_hid_usages(key);
}

/// A byte as two lowercase hexadecimal digits.
pub open spec fn hex2(b: u8) -> Seq<char> {
    let t = radix_digits(b as nat, 16);
    if b < 16 { seq!['0'] + t } else { t }
}

/// A byte as two lowercase hexadecimal digits, as `{:02x}` writes it.
fn hex_byte(b: u8) -> (r: String)
    ensures
        r@ == hex2(b),
{
    let digits = radix(b as u64, 16);
    if b < 16 {
        proof {
            reveal_strlit("0");
        }
        let mut r = "0".to_owned();
        push_str(&mut r, digits.as_str());
        r
    } else {
        digits
    }
}

/// The file name of a screenshot: the process id and the first four bytes
/// of the request id.
pub open spec fn screenshot_file_name(pid: u32, id: Seq<u8>) -> Seq<char> {
    "vmux-simulator-"@ + radix_digits(pid as nat, 10) + "-"@ + hex2(id[0]) + hex2(id[1]) + hex2(id[2]) + hex2(id[3])
        + ".png"@
}

/// A screenshot taken for an agent.
#[derive(Clone, Debug, PartialEq, Eq)]
pub struct SimulatorScreenshot {
    pub path: String,
    pub png: Vec<u8>,
    pub width: u32,
    pub height: u32,
}

impl SimulatorScreenshot {
    /// Where a screenshot is written, under the temporary directory.
    pub fn file_name(pid: u32, request_id: [u8; 16]) -> (r: String)
        ensures
            r@ == screenshot_file_name(pid, request_id@),
    {
        let mut r = "vmux-simulator-".to_owned();
        let p = radix(pid as u64, 10);
        push_str(&mut r, p.as_str());
        push_str(&mut r, "-");
        let a = hex_byte(request_id[0]);
        push_str(&mut r, a.as_str());
        let b = hex_byte(request_id[1]);
        push_str(&mut r, b.as_str());
        let c = hex_byte(request_id[2]);
        push_str(&mut r, c.as_str());
        let d = hex_byte(request_id[3]);
        push_str(&mut r, d.as_str());
        push_str(&mut r, ".png");
        r
    }

    /// The screenshot read back from `path`, with its pixel size, or why it
    /// is not one.
    pub fn of_png(path: String, png: Vec<u8>) -> (r: Result<Self, String>)
        ensures
            match png_dimensions(png@) {
                Some((w, h)) => r matches Ok(s) && s.path == path && s.png@ == png@ && s.width == w && s.height == h,
                None => r matches Err(m) && m@ == "simulator screenshot is not a valid PNG"@,
            },
    {
        match SimulatorDevice::png_size(png.as_slice()) {
            Some((width, height)) => Ok(SimulatorScreenshot { path, png, width, height }),
            None => Err("simulator screenshot is not a valid PNG".to_owned()),
        }
    }
}

} // verus!
