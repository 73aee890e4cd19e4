use std::sync::Arc;

use vmux::simulator::command::Invocation;
use vmux::simulator::device::{
    Axe, BootStep, CommandOutput, IosVersion, SimctlEntry, SimctlRuntime, SimulatorDevice,
};
use vmux::simulator::event::{
    HardwareButton, Keystroke, SimulatorClipboardAction, SimulatorKey, SimulatorTouchPhase,
};
use vmux::simulator::hid::{endpoint_path, fnv1a64, join_path};
use vmux::simulator::input::{DeviceClipboard, DeviceKey, DeviceTouch, DeviceTouchSession, HidAction};
use vmux::simulator::keyboard::KeyboardDraft;
use vmux::simulator::stream::{
    request_has_capability, request_header_complete, FrameExchange, FramePoll, MjpegError,
    MjpegFrames, MAX_FRAME_BYTES,
};

fn text(s: &str) -> SimulatorKey {
    SimulatorKey::Text(s.to_string())
}

#[test]
fn a_printable_key_is_typed_rather_than_coded() {
    assert_eq!(SimulatorKey::of_browser_key("a"), Some(SimulatorKey::Text("a".into())));
    assert_eq!(SimulatorKey::of_browser_key("あ"), Some(SimulatorKey::Text("あ".into())));
}

#[test]
fn keys_with_no_text_become_hid_codes() {
    assert_eq!(SimulatorKey::of_browser_key("Enter"), Some(SimulatorKey::Code(40)));
    assert_eq!(SimulatorKey::of_browser_key("Backspace"), Some(SimulatorKey::Code(42)));
    assert_eq!(SimulatorKey::of_browser_key("ArrowUp"), Some(SimulatorKey::Code(82)));
}

#[test]
fn a_modifier_or_unknown_named_key_is_dropped() {
    for key in ["Shift", "Meta", "F13", "Unidentified"] {
        assert_eq!(SimulatorKey::of_browser_key(key), None, "{key}");
    }
}

#[test]
fn every_named_key_has_its_hid_code() {
    let named = [
        ("Escape", 41),
        ("Tab", 43),
        ("ArrowRight", 79),
        ("ArrowLeft", 80),
        ("ArrowDown", 81),
    ];
    for (key, code) in named {
        assert_eq!(SimulatorKey::of_browser_key(key), Some(SimulatorKey::Code(code)), "{key}");
    }
    assert_eq!(SimulatorKey::of_browser_key(""), None);
}

#[test]
fn command_letters_press_hardware_buttons() {
    assert_eq!(Keystroke::of("h", true, false, false), Some(SimulatorKey::Button(HardwareButton::Home)));
    assert_eq!(Keystroke::of("L", true, false, false), Some(SimulatorKey::Button(HardwareButton::Lock)));
    assert_eq!(Keystroke::of("s", true, false, false), Some(SimulatorKey::Button(HardwareButton::Siri)));
    assert_eq!(Keystroke::of("x", true, false, false), None);
    assert_eq!(Keystroke::of("h", true, true, false), None);
    assert_eq!(Keystroke::of("a", false, false, true), None);
    assert_eq!(Keystroke::of("a", false, false, false), Some(text("a")));
}

#[test]
fn hardware_buttons_name_their_axe_argument() {
    assert_eq!(HardwareButton::Home.as_arg(), "home");
    assert_eq!(HardwareButton::Lock.as_arg(), "lock");
    assert_eq!(HardwareButton::Siri.as_arg(), "siri");
}

fn png_header(width: u32, height: u32) -> Vec<u8> {
    let mut bytes = vec![0; 24];
    bytes[..8].copy_from_slice(b"\x89PNG\r\n\x1a\n");
    bytes[12..16].copy_from_slice(b"IHDR");
    bytes[16..20].copy_from_slice(&width.to_be_bytes());
    bytes[20..24].copy_from_slice(&height.to_be_bytes());
    bytes
}

#[test]
fn reads_pixel_size_from_a_png_header() {
    let bytes = png_header(1206, 2622);

    assert_eq!(SimulatorDevice::png_size(&bytes), Some((1206, 2622)));
    assert_eq!(SimulatorDevice::png_size(b"not png"), None);
}

#[test]
fn a_png_with_an_empty_side_or_another_chunk_has_no_size() {
    assert_eq!(SimulatorDevice::png_size(&png_header(0, 10)), None);
    let mut other = png_header(3, 4);
    other[12..16].copy_from_slice(b"IDAT");
    assert_eq!(SimulatorDevice::png_size(&other), None);
    assert_eq!(SimulatorDevice::png_size(&png_header(3, 4)[..23]), None);
}

fn entry(udid: &str, name: &str, available: Option<bool>) -> SimctlEntry {
    SimctlEntry {
        udid: Some(udid.to_string()),
        name: Some(name.to_string()),
        is_available: available,
    }
}

fn runtime(key: &str, entries: Vec<SimctlEntry>) -> SimctlRuntime {
    SimctlRuntime { key: key.to_string(), entries: Some(entries) }
}

const TWO_RUNTIMES: &[u8] = br#"{"devices":{
    "com.apple.CoreSimulator.SimRuntime.iOS-26-5":[
        {"udid":"AAAAAAAA-0000-0000-0000-000000000000","name":"iPhone 17","state":"Booted"}
    ],
    "com.apple.CoreSimulator.SimRuntime.iOS-27-0":[
        {"udid":"174D774A-1F21-455C-AB54-AF19D513988A","name":"iPhone 17 Pro","state":"Booted"}
    ]
}}"#;

#[test]
fn carries_the_runtime_version_of_the_device_it_picks() {
    let device = SimulatorDevice::from_simctl_json(TWO_RUNTIMES, None, None).expect("device");

    assert_eq!(device.version.map(|v| v.text()), Some("27.0".to_string()));
    assert_eq!(device.name, "iPhone 17 Pro");
}

#[test]
fn a_pinned_version_selects_that_runtime_and_not_another_booted_one() {
    let want = IosVersion::parse("27.0").expect("version");

    let device = SimulatorDevice::from_simctl_json(TWO_RUNTIMES, Some(&want), None).expect("device");

    assert_eq!(device.udid, "174D774A-1F21-455C-AB54-AF19D513988A");
    assert_eq!(device.name, "iPhone 17 Pro");
    assert_eq!(device.version, Some(want));
}

#[test]
fn a_pinned_version_with_nothing_booted_on_it_yields_nothing() {
    let want = IosVersion::parse("18.0").expect("version");

    assert_eq!(SimulatorDevice::from_simctl_json(TWO_RUNTIMES, Some(&want), None), None);
}

#[test]
fn no_booted_device_when_every_runtime_is_empty() {
    let json = br#"{"devices":{"com.apple.CoreSimulator.SimRuntime.iOS-27-0":[]}}"#;

    assert_eq!(SimulatorDevice::from_simctl_json(json, None, None), None);
}

#[test]
fn malformed_output_does_not_panic() {
    assert_eq!(SimulatorDevice::from_simctl_json(b"not json", None, None), None);
    assert_eq!(SimulatorDevice::from_simctl_json(b"{}", None, None), None);
}

#[test]
fn unavailable_and_non_ios_devices_are_ignored() {
    let json = br#"{"devices":{
        "com.apple.CoreSimulator.SimRuntime.watchOS-27-0":[
            {"udid":"WATCH","name":"Apple Watch"}
        ],
        "com.apple.CoreSimulator.SimRuntime.iOS-27-0":[
            {"udid":"UNAVAILABLE","name":"iPhone 17 Pro","isAvailable":false},
            {"udid":"AVAILABLE","name":"iPhone 17 Pro Max","isAvailable":true}
        ]
    }}"#;

    let device = SimulatorDevice::from_simctl_json(json, None, None).expect("device");

    assert_eq!(device.udid, "AVAILABLE");
    assert_eq!(device.name, "iPhone 17 Pro Max");
}

#[test]
fn a_device_name_selects_that_model_within_the_runtime() {
    let json = br#"{"devices":{
        "com.apple.CoreSimulator.SimRuntime.iOS-27-0":[
            {"udid":"PHONE","name":"iPhone 17","isAvailable":true},
            {"udid":"PRO","name":"iPhone 17 Pro","isAvailable":true}
        ]
    }}"#;
    let version = IosVersion::parse("27.0").expect("version");

    let device = SimulatorDevice::from_simctl_json(json, Some(&version), Some("iPhone 17 Pro")).expect("device");

    assert_eq!(device.udid, "PRO");
}

#[test]
fn listing_entries_that_are_not_objects_or_lack_strings_are_skipped() {
    let json = br#"{"devices":{
        "com.apple.CoreSimulator.SimRuntime.iOS-27-0":{"not":"an array"},
        "com.apple.CoreSimulator.SimRuntime.iOS-27-1":[3, {"udid":"X"}, {"udid":7,"name":"N"}, {"udid":"OK","name":"Phone"}]
    }}"#;
    let device = SimulatorDevice::from_simctl_json(json, None, None).expect("device");
    assert_eq!((device.udid.as_str(), device.name.as_str()), ("OK", "Phone"));
    assert_eq!(SimulatorDevice::from_simctl_json(br#"{"devices":[]}"#, None, None), None);
}

#[test]
fn a_failed_listing_reports_why() {
    assert_eq!(
        SimulatorDevice::listed("booted", Err("no xcrun".to_string()), None, None),
        Err("could not run simctl: no xcrun".to_string())
    );
    let failed = CommandOutput { success: false, stdout: Vec::new(), stderr: "  boom\n".to_string() };
    assert_eq!(
        SimulatorDevice::listed("available", Ok(failed), None, None),
        Err("simctl could not list available devices: boom".to_string())
    );
    let ok = CommandOutput { success: true, stdout: TWO_RUNTIMES.to_vec(), stderr: String::new() };
    let device = SimulatorDevice::listed("booted", Ok(ok), None, None).unwrap().expect("device");
    assert_eq!(device.udid, "174D774A-1F21-455C-AB54-AF19D513988A");
    assert_eq!(SimulatorDevice::booted_matching(Err("x".to_string())), None);
}

#[test]
fn a_listing_without_runtimes_or_with_malformed_entries_yields_nothing() {
    assert_eq!(SimulatorDevice::select(&[], None, None), None);
    let not_an_array = SimctlRuntime {
        key: "com.apple.CoreSimulator.SimRuntime.iOS-27-0".to_string(),
        entries: None,
    };
    let nameless = runtime(
        "com.apple.CoreSimulator.SimRuntime.iOS-27-1",
        vec![SimctlEntry { udid: Some("X".to_string()), name: None, is_available: None }],
    );
    assert_eq!(SimulatorDevice::select(&[not_an_array, nameless], None, None), None);
}

#[test]
fn of_two_runtimes_of_one_version_the_first_listed_wins() {
    let runtimes = vec![
        runtime("com.apple.CoreSimulator.SimRuntime.iOS-27-0", vec![entry("FIRST", "A", None)]),
        runtime("com.apple.CoreSimulator.SimRuntime.iOS-027-0", vec![entry("SECOND", "B", None)]),
    ];

    assert_eq!(SimulatorDevice::select(&runtimes, None, None).expect("device").udid, "FIRST");
}

#[test]
fn versions_read_from_runtime_keys_and_text() {
    assert_eq!(
        IosVersion::from_runtime_key("com.apple.CoreSimulator.SimRuntime.iOS-18-4"),
        Some(IosVersion { major: 18, minor: 4 })
    );
    assert_eq!(IosVersion::from_runtime_key("com.apple.CoreSimulator.SimRuntime.tvOS-18-4"), None);
    assert_eq!(IosVersion::from_runtime_key("com.apple.CoreSimulator.SimRuntime.iOS-18"), None);
    assert_eq!(IosVersion::parse("17.2"), Some(IosVersion { major: 17, minor: 2 }));
    assert_eq!(IosVersion::parse("17."), None);
    assert_eq!(IosVersion::parse("17.2.1"), None);
    assert_eq!(IosVersion::parse("4294967296.0"), None);
    assert_eq!(IosVersion { major: 26, minor: 10 }.text(), "26.10");
    let v = IosVersion { major: 27, minor: 3 };
    assert_eq!(IosVersion::parse(&v.text()), Some(v));
    assert!(IosVersion { major: 27, minor: 0 }.is_later_than(&IosVersion { major: 26, minor: 9 }));
    assert!(!IosVersion { major: 27, minor: 0 }.is_later_than(&IosVersion { major: 27, minor: 0 }));
}

fn device(udid: &str, name: &str) -> SimulatorDevice {
    SimulatorDevice {
        udid: udid.to_string(),
        name: name.to_string(),
        version: Some(IosVersion { major: 27, minor: 0 }),
    }
}

#[test]
fn booting_uses_a_booted_device_before_listing_available_ones() {
    let booted = device("B", "Booted");
    assert_eq!(
        SimulatorDevice::booted_or_boot(Some(booted.clone()), None, None, None),
        BootStep::Ready(booted)
    );
    assert_eq!(SimulatorDevice::booted_or_boot(None, None, None, None), BootStep::ListAvailable);
    let available = device("A", "Available");
    assert_eq!(
        SimulatorDevice::booted_or_boot(None, Some(Ok(Some(available.clone()))), None, None),
        BootStep::Boot(available)
    );
    assert_eq!(
        SimulatorDevice::booted_or_boot(None, Some(Err("simctl failed".to_string())), None, None),
        BootStep::Fail("simctl failed".to_string())
    );
}

#[test]
fn nothing_available_names_what_was_wanted() {
    let want = IosVersion { major: 27, minor: 0 };
    assert_eq!(
        SimulatorDevice::booted_or_boot(None, Some(Ok(None)), Some(&want), Some("iPhone 17 Pro")),
        BootStep::Fail("no available iOS Simulator named iPhone 17 Pro for iOS 27.0".to_string())
    );
    assert_eq!(
        SimulatorDevice::booted_or_boot(None, Some(Ok(None)), None, None),
        BootStep::Fail("no available iOS Simulator".to_string())
    );
}

#[test]
fn a_failed_listing_has_no_booted_device() {
    assert_eq!(SimulatorDevice::booted(Err("no xcrun".to_string())), None);
    assert_eq!(SimulatorDevice::booted_matching(Ok(Some(device("X", "Y")))), Some(device("X", "Y")));
    assert_eq!(SimulatorDevice::booted_matching(Ok(None)), None);
}

fn argv(invocation: &Invocation) -> Vec<&str> {
    let mut v = vec![invocation.program.as_str()];
    v.extend(invocation.args.iter().map(String::as_str));
    v
}

#[test]
fn simctl_calls_list_and_boot_devices() {
    assert_eq!(
        argv(&SimulatorDevice::list_invocation("booted")),
        ["xcrun", "simctl", "list", "devices", "booted", "-j"]
    );
    let (boot, ready) = device("U-1", "Phone").boot_invocations();
    assert_eq!(argv(&boot), ["xcrun", "simctl", "boot", "U-1"]);
    assert_eq!(argv(&ready), ["xcrun", "simctl", "bootstatus", "U-1", "-b"]);
}

#[test]
fn axe_is_looked_for_on_the_path_then_in_homebrew_then_in_the_bundle() {
    assert_eq!(
        Axe::candidates(None),
        ["axe", "/opt/homebrew/bin/axe", "/usr/local/bin/axe"]
    );
    assert_eq!(
        Axe::candidates(Some("/Applications/Vmux.app/Contents/Resources/axe/axe".to_string())).len(),
        4
    );
    let axe = Axe::at("/opt/homebrew/bin/axe".to_string());
    assert_eq!(axe.path(), "/opt/homebrew/bin/axe");
    assert_eq!(argv(&Axe::version_invocation(axe.path())), ["/opt/homebrew/bin/axe", "--version"]);
}

#[test]
fn keys_are_sent_with_axe_to_the_device() {
    let axe = Axe::at("axe".to_string());
    let phone = device("UDID", "Phone");
    let typed = DeviceKey::resolve(&text("hi"), &phone).dispatch(&axe);
    assert_eq!(argv(&typed), ["axe", "type", "hi", "--udid", "UDID"]);
    let coded = DeviceKey::resolve(&SimulatorKey::Code(42), &phone).dispatch(&axe);
    assert_eq!(argv(&coded), ["axe", "key", "42", "--udid", "UDID"]);
    let button = DeviceKey::resolve(&SimulatorKey::Button(HardwareButton::Lock), &phone).dispatch(&axe);
    assert_eq!(argv(&button), ["axe", "button", "lock", "--udid", "UDID"]);
}

#[test]
fn clipboard_shortcuts_copy_then_sync_and_sync_then_paste() {
    let axe = Axe::at("/bin/axe".to_string());
    let phone = device("UDID", "Phone");
    let copy = DeviceClipboard::resolve(SimulatorClipboardAction::Copy, &phone, &axe).steps();
    assert_eq!(
        argv(&copy[0]),
        ["/bin/axe", "key-combo", "--modifiers", "227", "--key", "6", "--udid", "UDID"]
    );
    assert_eq!(argv(&copy[1]), ["xcrun", "simctl", "pbsync", "UDID", "host"]);
    let paste = DeviceClipboard::resolve(SimulatorClipboardAction::Paste, &phone, &axe).steps();
    assert_eq!(argv(&paste[0]), ["xcrun", "simctl", "pbsync", "host", "UDID"]);
    assert_eq!(
        argv(&paste[1]),
        ["/bin/axe", "key-combo", "--modifiers", "227", "--key", "25", "--udid", "UDID"]
    );
}

fn touch(phase: SimulatorTouchPhase, x: i32, session: &mut DeviceTouchSession<(i32, i32)>, far: bool) -> Vec<HidAction<(i32, i32)>> {
    DeviceTouch { point: (x, 0), phase }.dispatch(session, far)
}

#[test]
fn a_touch_that_stays_put_is_a_tap_at_its_start() {
    let mut session = DeviceTouchSession::new();
    assert!(touch(SimulatorTouchPhase::Down, 10, &mut session, false).is_empty());
    assert!(touch(SimulatorTouchPhase::Move, 12, &mut session, false).is_empty());
    assert_eq!(touch(SimulatorTouchPhase::Up, 12, &mut session, false), [HidAction::Tap((10, 0))]);
    assert_eq!(session.start(), None);
}

#[test]
fn a_touch_that_moves_far_becomes_a_drag_and_is_released() {
    let mut session = DeviceTouchSession::new();
    assert!(touch(SimulatorTouchPhase::Down, 10, &mut session, false).is_empty());
    assert_eq!(session.start(), Some((10, 0)));
    assert_eq!(
        touch(SimulatorTouchPhase::Move, 30, &mut session, true),
        [HidAction::Down((10, 0)), HidAction::MoveTo((30, 0))]
    );
    assert_eq!(touch(SimulatorTouchPhase::Move, 31, &mut session, false), [HidAction::MoveTo((31, 0))]);
    assert_eq!(touch(SimulatorTouchPhase::Up, 40, &mut session, false), [HidAction::Up((40, 0))]);
}

#[test]
fn a_cancelled_drag_is_released_where_it_last_was() {
    let mut session = DeviceTouchSession::new();
    touch(SimulatorTouchPhase::Down, 1, &mut session, false);
    touch(SimulatorTouchPhase::Move, 50, &mut session, true);
    assert_eq!(touch(SimulatorTouchPhase::Cancel, 0, &mut session, false), [HidAction::Up((50, 0))]);
    assert!(touch(SimulatorTouchPhase::Up, 0, &mut session, false).is_empty());
    assert!(touch(SimulatorTouchPhase::Move, 9, &mut session, true).is_empty());
}

#[test]
fn a_new_touch_releases_a_drag_still_held() {
    let mut session = DeviceTouchSession::new();
    touch(SimulatorTouchPhase::Down, 1, &mut session, false);
    touch(SimulatorTouchPhase::Move, 70, &mut session, true);
    assert_eq!(touch(SimulatorTouchPhase::Down, 5, &mut session, false), [HidAction::Up((70, 0))]);
}

#[test]
fn keyboard_capture_forwards_insertions_deletions_and_replacements() {
    let mut draft = KeyboardDraft::new();

    assert_eq!(draft.replace("pair".to_string()), vec![SimulatorKey::Text("pair".to_string())]);
    assert_eq!(draft.replace("pai".to_string()), vec![SimulatorKey::Code(42)]);
    assert_eq!(
        draft.replace("link".to_string()),
        vec![
            SimulatorKey::Code(42),
            SimulatorKey::Code(42),
            SimulatorKey::Code(42),
            SimulatorKey::Text("link".to_string()),
        ]
    );
    assert_eq!(draft.value(), "link");
    assert!(!draft.is_empty());
    assert!(draft.replace(String::new()).len() == 4);
    assert!(draft.is_empty());
}

#[test]
fn mjpeg_frames_survive_chunk_boundaries() {
    let mut parser = MjpegFrames::new();

    assert!(parser.push(&[9, 0xff]).unwrap().is_empty());
    assert!(parser.push(&[0xd8, 1, 2, 0xff]).unwrap().is_empty());
    assert_eq!(
        parser.push(&[0xd9, 0xff, 0xd8, 3, 0xff, 0xd9]).unwrap(),
        [vec![0xff, 0xd8, 1, 2, 0xff, 0xd9], vec![0xff, 0xd8, 3, 0xff, 0xd9]]
    );
}

#[test]
fn an_oversized_frame_is_refused() {
    let mut parser = MjpegFrames::new();
    let mut chunk = vec![0xff, 0xd8];
    chunk.resize(MAX_FRAME_BYTES + 1, 0);
    assert_eq!(parser.push(&chunk), Err(MjpegError::FrameTooLarge));
    assert!(!MjpegError::FrameTooLarge.message().is_empty());
}

#[test]
fn stream_requests_require_the_capability() {
    assert!(request_has_capability(b"GET /secret HTTP/1.1\r\nHost: localhost\r\n\r\n", "secret"));
    assert!(!request_has_capability(b"GET / HTTP/1.1\r\nHost: localhost\r\n\r\n", "secret"));
    assert!(!request_has_capability(
        b"GET /secret-extra HTTP/1.1\r\nHost: localhost\r\n\r\n",
        "secret"
    ));
}

#[test]
fn a_request_header_ends_at_a_blank_line() {
    assert!(request_header_complete(b"GET / HTTP/1.1\r\nHost: x\r\n\r\n"));
    assert!(!request_header_complete(b"GET / HTTP/1.1\r\nHost: x\r\n"));
}

#[test]
fn encoded_frames_are_shared_between_stream_clients() {
    let mut frames: FrameExchange<Arc<[u8]>> = FrameExchange::new();
    frames.replace(Arc::from(vec![1u8, 2, 3]));

    assert_eq!(frames.poll(0), FramePoll::Frame(1));
    let first = frames.latest().cloned().expect("first client");
    let second = frames.latest().cloned().expect("second client");

    assert!(Arc::ptr_eq(&first, &second));
}

#[test]
fn a_closed_exchange_ends_every_client() {
    let mut frames: FrameExchange<u8> = FrameExchange::new();
    assert_eq!(frames.poll(0), FramePoll::Wait);
    frames.replace(7);
    assert_eq!(frames.poll(1), FramePoll::Wait);
    frames.close();
    frames.replace(8);
    assert_eq!(frames.poll(0), FramePoll::End);
    assert_eq!(frames.latest(), Some(&7));
}

#[test]
fn endpoint_matches_the_axe_protocol() {
    let endpoint = endpoint_path(
        "174D774A-1F21-455C-AB54-AF19D513988A",
        "/Applications/Xcode.app/Contents/Developer",
        "/private/var/folders/example/T",
        501,
    );

    assert_eq!(endpoint.rsplit('/').next(), Some("8924da6ea82aea1b-8987718aa6246ff8-v2.sock"));
    assert!(endpoint.starts_with("/private/var/folders/example/T/axe-hid-501/"));
}

#[test]
fn fnv_hash_and_path_joining() {
    assert_eq!(fnv1a64(""), 14695981039346656037);
    assert_eq!(fnv1a64("a"), 0xaf63dc4c8601ec8c);
    assert_eq!(join_path("/tmp/", "x"), "/tmp/x");
    assert_eq!(join_path("/tmp", "x"), "/tmp/x");
}

use vmux::simulator::control::{
    capture_key, dispatch_key_control, ready_for, should_announce, CaptureKey, KeyControl,
    SimulatorScreenshot,
};
use vmux::simulator::hid::{
    broker_invocation, fallback_invocation, private_and_owned, removable_endpoint, suffixed,
    BrokerMessage, ReadStep, MAX_MESSAGE_BYTES,
};
use vmux::simulator::stream::{frame_header, stream_invocation, STREAM_HEADER};

#[test]
fn the_page_is_told_the_port_version_and_name() {
    let ready = ready_for(Some(5555), Some(&device("U", "iPhone")));
    assert_eq!((ready.port, ready.version.as_str(), ready.device_name.as_str()), (5555, "27.0", "iPhone"));
    let empty = ready_for(None, Some(&device("U", "iPhone")));
    assert_eq!((empty.port, empty.version.as_str(), empty.device_name.as_str()), (0, "", ""));
    assert!(should_announce("vmux://simulator/27.0", None, &ready, true));
    assert!(!should_announce("vmux://simulator/27.0", Some(&ready), &ready, true));
    assert!(!should_announce("vmux://other/", None, &ready, true));
    assert!(!should_announce("vmux://simulator/", Some(&empty), &ready, false));
}

#[test]
fn agent_key_requests_need_a_device_and_axe() {
    let axe = Axe::at("axe".to_string());
    let phone = device("U", "Phone");
    let (call, reply) = dispatch_key_control(KeyControl::Key(40), Some(&phone), Some(&axe)).unwrap();
    assert_eq!(argv(&call), ["axe", "key", "40", "--udid", "U"]);
    assert_eq!(reply, "pressed simulator keycode 40");
    assert_eq!(
        dispatch_key_control(KeyControl::TypeText("hi".to_string()), None, Some(&axe)),
        Err("no iOS Simulator is attached".to_string())
    );
    assert_eq!(
        dispatch_key_control(KeyControl::Button(HardwareButton::Home), Some(&phone), None),
        Err("simulator input is unavailable".to_string())
    );
}

#[test]
fn the_keyboard_overlay_forwards_its_control_keys() {
    assert_eq!(capture_key("Escape", false), CaptureKey::Close);
    assert_eq!(capture_key("Backspace", true), CaptureKey::Send(SimulatorKey::Code(42)));
    assert_eq!(capture_key("Backspace", false), CaptureKey::Pass);
    assert_eq!(capture_key("ArrowDown", false), CaptureKey::Send(SimulatorKey::Code(81)));
    assert_eq!(capture_key("a", true), CaptureKey::Pass);
}

#[test]
fn screenshots_are_named_and_checked() {
    let mut id = [0u8; 16];
    id[..4].copy_from_slice(&[0x0a, 0xff, 0x00, 0x10]);
    assert_eq!(SimulatorScreenshot::file_name(42, id), "vmux-simulator-42-0aff0010.png");
    let shot = SimulatorScreenshot::of_png("/tmp/x.png".to_string(), png_header(3, 4)).unwrap();
    assert_eq!((shot.width, shot.height), (3, 4));
    assert_eq!(
        SimulatorScreenshot::of_png("/tmp/x.png".to_string(), vec![1, 2, 3]),
        Err("simulator screenshot is not a valid PNG".to_string())
    );
}

#[test]
fn broker_messages_end_at_a_line_feed() {
    let mut message = BrokerMessage::new();
    assert_eq!(message.push(Some(b'{')), ReadStep::More);
    assert_eq!(message.push(Some(b'}')), ReadStep::More);
    assert_eq!(message.push(Some(b'\n')), ReadStep::Message(b"{}".to_vec()));
    let mut cut = BrokerMessage::new();
    cut.push(Some(b'x'));
    assert_eq!(cut.push(None), ReadStep::Invalid);
    let mut large = BrokerMessage::new();
    for _ in 0..MAX_MESSAGE_BYTES {
        assert_eq!(large.push(Some(b'a')), ReadStep::More);
    }
    assert_eq!(large.push(Some(b'a')), ReadStep::Invalid);
}

#[test]
fn broker_calls_and_file_checks() {
    assert_eq!(argv(&broker_invocation("axe", "U")), ["axe", "hid-broker", "--udid", "U"]);
    let fallback = vec!["tap".to_string(), "-x".to_string(), "10".to_string()];
    assert_eq!(argv(&fallback_invocation("axe", &fallback, "U")), ["axe", "tap", "-x", "10", "--udid", "U"]);
    assert_eq!(suffixed("/tmp/a.sock", ".lock"), "/tmp/a.sock.lock");
    assert!(private_and_owned(true, 501, 501, 0o600));
    assert!(!private_and_owned(true, 501, 501, 0o644));
    assert!(!private_and_owned(true, 0, 501, 0o600));
    assert!(removable_endpoint(true, 501, 501));
    assert!(!removable_endpoint(false, 501, 501));
}

#[test]
fn the_stream_is_served_as_multipart_jpeg() {
    assert!(STREAM_HEADER.contains("boundary=vmuxframe"));
    assert_eq!(frame_header(1234), "--vmuxframe\r\nContent-Type: image/jpeg\r\nContent-Length: 1234\r\n\r\n");
    assert_eq!(
        argv(&stream_invocation("axe", "U")),
        ["axe", "stream-video", "--udid", "U", "--format", "mjpeg", "--fps", "30", "--quality", "95", "--scale", "0.5"]
    );
}

#[test]
fn every_split_of_a_stream_gives_the_same_frames() {
    let stream: Vec<u8> = vec![7, 0xff, 0xd8, 1, 0xff, 0xd9, 0xff, 0xff, 0xd8, 0xff, 0xd9, 5, 0xff, 0xd8, 2];
    let whole = {
        let mut parser = MjpegFrames::new();
        parser.push(&stream).unwrap()
    };
    assert_eq!(whole, [vec![0xff, 0xd8, 1, 0xff, 0xd9], vec![0xff, 0xd8, 0xff, 0xd9]]);
    for size in 1..stream.len() {
        let mut parser = MjpegFrames::new();
        let mut frames = Vec::new();
        for chunk in stream.chunks(size) {
            frames.extend(parser.push(chunk).unwrap());
        }
        assert_eq!(frames, whole, "chunks of {size}");
    }
}

#[test]
fn a_whole_gesture_is_a_tap_or_a_drag_from_its_first_far_move() {
    let gesture = |moves: &[(i32, bool)]| {
        let mut session = DeviceTouchSession::new();
        let mut sent = touch(SimulatorTouchPhase::Down, 0, &mut session, false);
        for (x, far) in moves {
            sent.extend(touch(SimulatorTouchPhase::Move, *x, &mut session, *far));
        }
        sent.extend(touch(SimulatorTouchPhase::Up, 99, &mut session, false));
        assert_eq!(session.start(), None);
        sent
    };
    assert_eq!(gesture(&[(1, false), (2, false)]), [HidAction::Tap((0, 0))]);
    assert_eq!(
        gesture(&[(1, false), (8, true), (3, false)]),
        [HidAction::Down((0, 0)), HidAction::MoveTo((8, 0)), HidAction::MoveTo((3, 0)), HidAction::Up((99, 0))]
    );
}
