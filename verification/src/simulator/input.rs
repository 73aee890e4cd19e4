//! Input forwarded to a simulator device: keys and clipboard shortcuts
//! become `axe` and `simctl` calls, touches become HID presses.
use vstd::prelude::*;
use crate::simulator::command::{arg_views, Invocation};
use crate::simulator::device::{Axe, SimulatorDevice};
use crate::simulator::event::{
    button_arg, HardwareButton, SimulatorClipboardAction, SimulatorKey, SimulatorTouchPhase,
};
use crate::text::{radix, radix_digits};

verus! {

/// A copy of a simulator key, equal to it.
fn copy_key(key: &SimulatorKey) -> (r: SimulatorKey)
    ensures
        r == *key,
{
    match key {
        SimulatorKey::Text(t) => SimulatorKey::Text(t.clone()),
        SimulatorKey::Code(c) => SimulatorKey::Code(*c),
        SimulatorKey::Button(b) => SimulatorKey::Button(*b),
    }
}

/// The arguments that send a key with `axe`, before the device option.
pub open spec fn key_args(key: SimulatorKey) -> Seq<Seq<char>> {
    match key {
        SimulatorKey::Text(t) => seq!["type"@, t@],
        SimulatorKey::Code(c) => seq!["key"@, radix_digits(c as nat, 10)],
        SimulatorKey::Button(b) => seq!["button"@, button_arg(b)],
    }
}

/// A key bound for one device.
pub struct DeviceKey {
    udid: String,
    key: SimulatorKey,
}

impl DeviceKey {
    /// The device the key goes to.
    pub closed spec fn udid_view(&self) -> Seq<char> {
        self.udid@
    }

    /// The key.
    pub closed spec fn key_view(&self) -> SimulatorKey {
        self.key
    }

    /// Binds a key to a device.
    pub fn resolve(key: &SimulatorKey, device: &SimulatorDevice) -> (r: Self)
        ensures
            r.udid_view() == device.udid@,
            r.key_view() == *key,
    {
        DeviceKey { udid: device.udid.clone(), key: copy_key(key) }
    }

    /// The `axe` call that sends the key: `type <text>`, `key <code>` or
    /// `button <name>`, then `--udid <udid>`.
    pub fn dispatch(self, axe: &Axe) -> (r: Invocation)
        ensures
            r.runs(axe.location(), key_args(self.key_view()) + seq!["--udid"@, self.udid_view()]),
    {
        let mut r = Invocation::new(axe.path());
        match &self.key {
            SimulatorKey::Text(text) => {
                r.arg("type");
                r.arg(text.as_str());
            },
            SimulatorKey::Code(code) => {
                r.arg("key");
                let digits = radix(*code as u64, 10);
                r.arg(digits.as_str());
            },
            SimulatorKey::Button(button) => {
                r.arg("button");
                r.arg(button.as_arg());
            },
        }
        r.arg("--udid");
        r.arg(self.udid.as_str());
        assert(arg_views(r.args@) =~= key_args(self.key_view()) + seq!["--udid"@, self.udid_view()]);
        r
    }
}

/// The `axe` call that presses ⌘ with a key on the device.
pub open spec fn key_combo_args(key: nat, udid: Seq<char>) -> Seq<Seq<char>> {
    seq![
        "key-combo"@,
        "--modifiers"@,
        "227"@,
        "--key"@,
        radix_digits(key, 10),
        "--udid"@,
        udid,
    ]
}

/// The `simctl` call that copies one pasteboard to another.
pub open spec fn pbsync_args(source: Seq<char>, destination: Seq<char>) -> Seq<Seq<char>> {
    seq!["simctl"@, "pbsync"@, source, destination]
}

/// A clipboard shortcut bound for one device, run with one `axe`.
pub struct DeviceClipboard {
    axe: String,
    udid: String,
    action: SimulatorClipboardAction,
}

impl DeviceClipboard {
    /// Where the `axe` tool is.
    pub closed spec fn axe_view(&self) -> Seq<char> {
        self.axe@
    }

    /// The device.
    pub closed spec fn udid_view(&self) -> Seq<char> {
        self.udid@
    }

    /// The shortcut.
    pub closed spec fn action_view(&self) -> SimulatorClipboardAction {
        self.action
    }

    /// Binds a clipboard shortcut to a device and the `axe` tool.
    pub fn resolve(action: SimulatorClipboardAction, device: &SimulatorDevice, axe: &Axe) -> (r: Self)
        ensures
            r.axe_view() == axe.location(),
            r.udid_view() == device.udid@,
            r.action_view() == action,
    {
        DeviceClipboard { axe: axe.path().to_owned(), udid: device.udid.clone(), action }
    }

    /// The ⌘-key press with the given HID key code.
    fn key_combo(&self, key: u8) -> (r: Invocation)
        ensures
            r.runs(self.axe_view(), key_combo_args(key as nat, self.udid_view())),
    {
        let mut r = Invocation::new(self.axe.as_str());
        r.arg("key-combo");
        r.arg("--modifiers");
        r.arg("227");
        r.arg("--key");
        let digits = radix(key as u64, 10);
        r.arg(digits.as_str());
        r.arg("--udid");
        r.arg(self.udid.as_str());
        assert(arg_views(r.args@) =~= key_combo_args(key as nat, self.udid_view()));
        r
    }

    /// The pasteboard copy from `source` to `destination`.
    fn sync(&self, source: &str, destination: &str) -> (r: Invocation)
        ensures
            r.runs("xcrun"@, pbsync_args(source@, destination@)),
    {
        let mut r = Invocation::new("xcrun");
        r.arg("simctl");
        r.arg("pbsync");
        r.arg(source);
        r.arg(destination);
        assert(arg_views(r.args@) =~= pbsync_args(source@, destination@));
        r
    }

    /// The calls that carry out the shortcut, to be run in order, stopping
    /// at the first that fails. Copy presses ⌘C on the device, then copies
    /// its pasteboard to the host's; paste copies the host's pasteboard to
    /// the device, then presses ⌘V there.
    pub fn steps(&self) -> (r: Vec<Invocation>)
        ensures
            r@.len() == 2,
            self.action_view() == SimulatorClipboardAction::Copy ==> {
                &&& r@[0].runs(self.axe_view(), key_combo_args(6, self.udid_view()))
                &&& r@[1].runs("xcrun"@, pbsync_args(self.udid_view(), "host"@))
            },
            self.action_view() == SimulatorClipboardAction::Paste ==> {
                &&& r@[0].runs("xcrun"@, pbsync_args("host"@, self.udid_view()))
                &&& r@[1].runs(self.axe_view(), key_combo_args(25, self.udid_view()))
            },
    {
        let mut r: Vec<Invocation> = Vec::new();
        match self.action {
            SimulatorClipboardAction::Copy => {
                r.push(self.key_combo(6));
                r.push(self.sync(self.udid.as_str(), "host"));
            },
            SimulatorClipboardAction::Paste => {
                r.push(self.sync("host", self.udid.as_str()));
                r.push(self.key_combo(25));
            },
        }
        r
    }
}

/// A press sent to the simulator's HID broker.
#[derive(Clone, Copy, Debug, PartialEq, Eq)]
pub enum HidAction<P> {
    Down(P),
    MoveTo(P),
    Up(P),
    Tap(P),
}

/// Presses minus releases among the actions: how much they change whether
/// the device is held down.
pub open spec fn press_balance<P>(actions: Seq<HidAction<P>>) -> int
    decreases actions.len(),
{
    if actions.len() == 0 {
        0
    } else {
        press_balance(actions.drop_last()) + match actions.last() {
            HidAction::Down(_) => 1int,
            HidAction::Up(_) => -1int,
            _ => 0int,
        }
    }
}

/// A pointer gesture in progress on the device: where it started, where it
/// last was, and whether it has become a drag (the device is held down).
#[derive(Clone, Copy, Debug, PartialEq, Eq)]
pub struct DeviceTouchSession<P> {
    start: Option<P>,
    last: Option<P>,
    dragging: bool,
}

/// The session's state as a spec value.
pub struct TouchState<P> {
    pub start: Option<P>,
    pub last: Option<P>,
    pub dragging: bool,
}

/// Whether a session's state is consistent: a gesture has a start exactly
/// when it has a last point, and only a gesture can drag.
pub open spec fn touch_state_wf<P>(s: TouchState<P>) -> bool {
    &&& (s.start is Some) == (s.last is Some)
    &&& s.dragging ==> s.start is Some
}

/// What one touch does to the session and which presses it sends. `far`
/// says whether the point is at least the drag threshold away from the
/// gesture's start.
pub open spec fn touch_step<P>(s: TouchState<P>, phase: SimulatorTouchPhase, point: P, far: bool) -> (TouchState<P>, Seq<HidAction<P>>) {
    match phase {
        SimulatorTouchPhase::Down => (
            TouchState { start: Some(point), last: Some(point), dragging: false },
            if s.dragging && s.last is Some { seq![HidAction::Up(s.last->0)] } else { Seq::empty() },
        ),
        SimulatorTouchPhase::Move => match s.start {
            None => (s, Seq::empty()),
            Some(start) => {
                let begins = !s.dragging && far;
                let dragging = s.dragging || begins;
                (
                    TouchState { start: s.start, last: Some(point), dragging },
                    (if begins { seq![HidAction::Down(start)] } else { Seq::empty() }) + (if dragging {
                        seq![HidAction::MoveTo(point)]
                    } else {
                        Seq::empty()
                    }),
                )
            },
        },
        SimulatorTouchPhase::Up => match s.start {
            None => (s, Seq::empty()),
            Some(start) => (
                TouchState { start: None, last: None, dragging: false },
                if s.dragging { seq![HidAction::Up(point)] } else { seq![HidAction::Tap(start)] },
            ),
        },
        SimulatorTouchPhase::Cancel => (
            TouchState { start: None, last: None, dragging: false },
            if s.dragging && s.last is Some { seq![HidAction::Up(s.last->0)] } else { Seq::empty() },
        ),
    }
}

impl<P: Copy> DeviceTouchSession<P> {
    /// The session's state.
    pub closed spec fn state(&self) -> TouchState<P> {
        TouchState { start: self.start, last: self.last, dragging: self.dragging }
    }

    /// A session with no gesture in progress.
    pub fn new() -> (r: Self)
        ensures
            r.state() == (TouchState::<P> { start: None, last: None, dragging: false }),
    {
        DeviceTouchSession { start: None, last: None, dragging: false }
    }

    /// Where the gesture in progress started.
    pub fn start(&self) -> (r: Option<P>)
        ensures
            r == self.state().start,
    {
        self.start
    }
}

/// A touch at a point of the device.
#[derive(Clone, Copy, Debug, PartialEq, Eq)]
pub struct DeviceTouch<P> {
    pub point: P,
    pub phase: SimulatorTouchPhase,
}

/// The distance in points a touch must move from its start before the
/// gesture becomes a drag.
pub const DRAG_THRESHOLD_POINTS: u32 = 6;

impl<P: Copy> DeviceTouch<P> {
    /// Applies the touch to the session and returns the presses to send, in
    /// order. A touch down starts a gesture (releasing a drag still held);
    /// a move that goes `far` from the start begins a drag, and every move
    /// of a drag is sent; a touch up ends the gesture with a release, or
    /// with a tap at the start if it never became a drag; a cancel releases
    /// a drag and forgets the gesture. Every press sent is released once:
    /// the presses minus the releases equal the change in `dragging`.
    pub fn dispatch(self, session: &mut DeviceTouchSession<P>, far: bool) -> (r: Vec<HidAction<P>>)
        requires
            touch_state_wf(old(session).state()),
        ensures
            (final(session).state(), r@) == touch_step(old(session).state(), self.phase, self.point, far),
            touch_state_wf(final(session).state()),
            press_balance(r@) == (if final(session).state().dragging { 1int } else { 0int }) - (if old(
                session,
            ).state().dragging {
                1int
            } else {
                0int
            }),
    {
        let mut r: Vec<HidAction<P>> = Vec::new();
        match self.phase {
            SimulatorTouchPhase::Down => {
                if session.dragging {
                    if let Some(previous) = session.last {
                        r.push(HidAction::Up(previous));
                    }
                }
                session.start = Some(self.point);
                session.last = Some(self.point);
                session.dragging = false;
            },
            SimulatorTouchPhase::Move => {
                if let Some(start) = session.start {
                    if !session.dragging && far {
                        r.push(HidAction::Down(start));
                        session.dragging = true;
                    }
                    session.last = Some(self.point);
                    if session.dragging {
                        r.push(HidAction::MoveTo(self.point));
                    }
                }
            },
            SimulatorTouchPhase::Up => {
                if let Some(start) = session.start {
                    session.start = None;
                    session.last = None;
                    if session.dragging {
                        r.push(HidAction::Up(self.point));
                    } else {
                        r.push(HidAction::Tap(start));
                    }
                    session.dragging = false;
                }
            },
            SimulatorTouchPhase::Cancel => {
                session.start = None;
                if session.dragging {
                    if let Some(last) = session.last {
                        r.push(HidAction::Up(last));
                    }
                }
                session.last = None;
                session.dragging = false;
            },
        }
        proof {
            let t = touch_step(old(session).state(), self.phase, self.point, far);
            assert(r@ =~= t.1);
            let a = r@;
            reveal_with_fuel(press_balance, 3);
            if a.len() == 2 {
                assert(a.drop_last().drop_last() =~= Seq::<HidAction<P>>::empty());
            } else if a.len() == 1 {
                assert(a.drop_last() =~= Seq::<HidAction<P>>::empty());
            }
        }
        r
    }
}

/// No gesture in progress.
pub open spec fn idle_touch<P>() -> TouchState<P> {
    TouchState { start: None, last: None, dragging: false }
}

/// The moves of a gesture applied in order, each with whether it is far
/// from the start: the session after them and the presses they send.
pub open spec fn touch_moves<P>(s: TouchState<P>, moves: Seq<(P, bool)>) -> (TouchState<P>, Seq<HidAction<P>>)
    decreases moves.len(),
{
    if moves.len() == 0 {
        (s, Seq::empty())
    } else {
        let (s1, a1) = touch_moves(s, moves.drop_last());
        let (s2, a2) = touch_step(s1, SimulatorTouchPhase::Move, moves.last().0, moves.last().1);
        (s2, a1 + a2)
    }
}

/// A whole gesture from a session with none in progress: down at `p0`, the
/// moves, up at `q`.
pub open spec fn touch_gesture<P>(p0: P, moves: Seq<(P, bool)>, q: P) -> (TouchState<P>, Seq<HidAction<P>>) {
    let (s0, a0) = touch_step(idle_touch(), SimulatorTouchPhase::Down, p0, false);
    let (s1, a1) = touch_moves(s0, moves);
    let (s2, a2) = touch_step(s1, SimulatorTouchPhase::Up, q, false);
    (s2, a0 + a1 + a2)
}

/// Each move of a drag, as a press.
pub open spec fn moves_to<P>(moves: Seq<(P, bool)>) -> Seq<HidAction<P>> {
    moves.map_values(|m: (P, bool)| HidAction::MoveTo(m.0))
}

proof fn lemma_moves_near<P>(p0: P, moves: Seq<(P, bool)>)
    requires
        forall|i: int| 0 <= i < moves.len() ==> !(#[trigger] moves[i]).1,
    ensures
        touch_moves(TouchState { start: Some(p0), last: Some(p0), dragging: false }, moves).0.start == Some(p0),
        touch_moves(TouchState { start: Some(p0), last: Some(p0), dragging: false }, moves).0.last is Some,
        !touch_moves(TouchState { start: Some(p0), last: Some(p0), dragging: false }, moves).0.dragging,
        touch_moves(TouchState { start: Some(p0), last: Some(p0), dragging: false }, moves).1 == Seq::<HidAction<P>>::empty(),
    decreases moves.len(),
{
    if moves.len() > 0 {
        let before = moves.drop_last();
        assert forall|i: int| 0 <= i < before.len() implies !(#[trigger] before[i]).1 by {
            assert(before[i] == moves[i]);
        }
        lemma_moves_near(p0, before);
        assert(!moves[moves.len() - 1].1);
        let s1 = touch_moves(TouchState { start: Some(p0), last: Some(p0), dragging: false }, before).0;
        assert(touch_step(s1, SimulatorTouchPhase::Move, moves.last().0, moves.last().1).1 =~= Seq::<HidAction<P>>::empty());
        assert(Seq::<HidAction<P>>::empty() + Seq::<HidAction<P>>::empty() =~= Seq::<HidAction<P>>::empty());
    }
}

proof fn lemma_moves_far<P>(p0: P, moves: Seq<(P, bool)>, j: int)
    requires
        0 <= j < moves.len(),
        moves[j].1,
        forall|i: int| 0 <= i < j ==> !(#[trigger] moves[i]).1,
    ensures
        touch_moves(TouchState { start: Some(p0), last: Some(p0), dragging: false }, moves).0.start == Some(p0),
        touch_moves(TouchState { start: Some(p0), last: Some(p0), dragging: false }, moves).0.last is Some,
        touch_moves(TouchState { start: Some(p0), last: Some(p0), dragging: false }, moves).0.dragging,
        touch_moves(TouchState { start: Some(p0), last: Some(p0), dragging: false }, moves).1 == seq![HidAction::Down(p0)]
            + moves_to(moves.subrange(j, moves.len() as int)),
    decreases moves.len(),
{
    let start = TouchState { start: Some(p0), last: Some(p0), dragging: false };
    let before = moves.drop_last();
    let n = moves.len() - 1;
    if j == n {
        assert forall|i: int| 0 <= i < before.len() implies !(#[trigger] before[i]).1 by {
            assert(before[i] == moves[i]);
        }
        lemma_moves_near(p0, before);
        assert(moves_to(moves.subrange(j, moves.len() as int)) =~= seq![HidAction::MoveTo(moves[n].0)]);
        assert(touch_moves(start, moves).1 =~= seq![HidAction::Down(p0)] + moves_to(moves.subrange(j, moves.len() as int)));
    } else {
        assert(before[j] == moves[j]);
        assert forall|i: int| 0 <= i < j implies !(#[trigger] before[i]).1 by {
            assert(before[i] == moves[i]);
        }
        lemma_moves_far(p0, before, j);
        assert(moves_to(moves.subrange(j, moves.len() as int)) =~= moves_to(before.subrange(j, before.len() as int)).push(
            HidAction::MoveTo(moves[n].0),
        ));
        assert(touch_moves(start, moves).1 =~= seq![HidAction::Down(p0)] + moves_to(moves.subrange(j, moves.len() as int)));
    }
}

/// A whole gesture from an idle session ends idle again. If no move went
/// far from the start, the device gets one tap at the start; otherwise,
/// with `j` the first far move, it gets a press at the start, a move to
/// every point from the `j`-th on, and a release where the touch ended.
pub proof fn lemma_gesture<P>(p0: P, moves: Seq<(P, bool)>, q: P, j: int)
    requires
        j == moves.len() || (0 <= j < moves.len() && moves[j].1),
        forall|i: int| 0 <= i < j ==> !(#[trigger] moves[i]).1,
    ensures
        touch_gesture(p0, moves, q).0 == idle_touch::<P>(),
        j == moves.len() ==> touch_gesture(p0, moves, q).1 == seq![HidAction::Tap(p0)],
        j < moves.len() ==> touch_gesture(p0, moves, q).1 == seq![HidAction::Down(p0)] + moves_to(
            moves.subrange(j, moves.len() as int),
        ) + seq![HidAction::Up(q)],
{
    let s0 = TouchState { start: Some(p0), last: Some(p0), dragging: false };
    assert(touch_step(idle_touch::<P>(), SimulatorTouchPhase::Down, p0, false) == (s0, Seq::<HidAction<P>>::empty()));
    if j == moves.len() {
        lemma_moves_near(p0, moves);
        assert(touch_gesture(p0, moves, q).1 =~= seq![HidAction::Tap(p0)]);
    } else {
        lemma_moves_far(p0, moves, j);
        assert(touch_gesture(p0, moves, q).1 =~= seq![HidAction::Down(p0)] + moves_to(moves.subrange(j, moves.len() as int))
            + seq![HidAction::Up(q)]);
    }
}

} // verus!
