//! Finding an iOS Simulator device: reading runtime versions, picking a
//! device out of a `simctl` listing, deciding when to boot one, and reading
//! a screenshot's pixel size.
use vstd::prelude::*;
use crate::simulator::command::{arg_views, Invocation};
use crate::text::{
    all_digits, chars_of, chars_start_with, decimal, digit_char, digits_value, is_digit,
    parse_decimal, push_str, radix, radix_digits, seq_starts_with, str_eq, string_of, trim_end, trim_start,
    trim_text,
};

verus! {

/// The prefix of a `simctl` runtime key for iOS, before `<major>-<minor>`.
pub const IOS_RUNTIME_PREFIX: &'static str = "com.apple.CoreSimulator.SimRuntime.iOS-";

/// An iOS runtime version.
#[derive(Clone, Copy, Debug, PartialEq, Eq, Structural)]
pub struct IosVersion {
    pub major: u32,
    pub minor: u32,
}

/// The index of the first `c` in the text, if it holds one.
pub open spec fn first_index(s: Seq<char>, c: char) -> Option<int> {
    if exists|k: int| 0 <= k < s.len() && s[k] == c && forall|j: int| 0 <= j < k ==> s[j] != c {
        Some(choose|k: int| 0 <= k < s.len() && s[k] == c && forall|j: int| 0 <= j < k ==> s[j] != c)
    } else {
        None
    }
}

/// The version written as two decimal numbers joined at the first `sep`.
pub open spec fn version_of(s: Seq<char>, sep: char) -> Option<IosVersion> {
    match first_index(s, sep) {
        None => None,
        Some(k) => match (
            decimal(s.subrange(0, k), u32::MAX as nat),
            decimal(s.subrange(k + 1, s.len() as int), u32::MAX as nat),
        ) {
            (Some(major), Some(minor)) => Some(IosVersion { major: major as u32, minor: minor as u32 }),
            _ => None,
        },
    }
}

/// The iOS version a `simctl` runtime key names, such as
/// `com.apple.CoreSimulator.SimRuntime.iOS-27-0` for 27.0; `None` for the
/// keys of other platforms.
pub open spec fn runtime_version(key: Seq<char>) -> Option<IosVersion> {
    let p = IOS_RUNTIME_PREFIX@;
    if seq_starts_with(key, p) {
        version_of(key.subrange(p.len() as int, key.len() as int), '-')
    } else {
        None
    }
}

/// The version as text, `<major>.<minor>`.
pub open spec fn version_text(v: IosVersion) -> Seq<char> {
    radix_digits(v.major as nat, 10) + seq!['.'] + radix_digits(v.minor as nat, 10)
}

/// Whether `a` is a later version than `b`.
pub open spec fn version_gt(a: IosVersion, b: IosVersion) -> bool {
    a.major > b.major || (a.major == b.major && a.minor > b.minor)
}

/// Splits the text at the first `sep` and reads both sides as decimal numbers.
fn split_version(cs: &[char], sep: char) -> (r: Option<IosVersion>)
    requires
        !is_digit(sep),
    ensures
        r == version_of(cs@, sep),
{
    let ghost s = cs@;
    let mut k: usize = 0;
    while k < cs.len() && cs[k] != sep
        invariant
            k <= cs@.len(),
            forall|j: int| 0 <= j < k ==> cs@[j] != sep,
        decreases cs@.len() - k,
    {
        k = k + 1;
    }
    if k == cs.len() {
        assert(first_index(s, sep) is None);
        return None;
    }
    proof {
        let p = |m: int| 0 <= m < s.len() && s[m] == sep && forall|j: int| 0 <= j < m ==> s[j] != sep;
        assert(p(k as int));
        let m = choose|m: int| 0 <= m < s.len() && s[m] == sep && forall|j: int| 0 <= j < m ==> s[j] != sep;
        assert(m == k) by {
            if m < k {
                assert(s[m] != sep);
            } else if m > k {
                assert(s[k as int] != sep);
            }
        }
        assert(first_index(s, sep) == Some(k as int));
    }
    let left = &cs[0..k];
    let right = &cs[k + 1..cs.len()];
    assert(left@ =~= s.subrange(0, k as int));
    assert(right@ =~= s.subrange(k + 1, s.len() as int));
    let major = parse_decimal(left, 0xffff_ffff);
    let minor = parse_decimal(right, 0xffff_ffff);
    match (major, minor) {
        (Some(a), Some(b)) => Some(IosVersion { major: a as u32, minor: b as u32 }),
        _ => None,
    }
}

impl IosVersion {
    /// Reads a version written `<major>.<minor>`, such as `27.0`.
    pub fn parse(text: &str) -> (r: Option<Self>)
        ensures
            r == version_of(text@, '.'),
    {
        let cs = chars_of(text);
        split_version(cs.as_slice(), '.')
    }

    /// The iOS version a `simctl` runtime key names.
    pub fn from_runtime_key(key: &str) -> (r: Option<Self>)
        ensures
            r == runtime_version(key@),
    {
        let cs = chars_of(key);
        let prefix = chars_of(IOS_RUNTIME_PREFIX);
        if !chars_start_with(cs.as_slice(), prefix.as_slice()) {
            return None;
        }
        let n = prefix.len();
        let rest = &cs.as_slice()[n..cs.len()];
        assert(rest@ =~= cs@.subrange(n as int, cs@.len() as int));
        split_version(rest, '-')
    }

    /// The version as text, `<major>.<minor>`.
    pub fn text(&self) -> (r: String)
        ensures
            r@ == version_text(*self),
    {
        let mut r = radix(self.major as u64, 10);
        let dot = ".";
        proof {
            reveal_strlit(".");
        }
        push_str(&mut r, dot);
        let minor = radix(self.minor as u64, 10);
        push_str(&mut r, minor.as_str());
        r
    }

    /// Whether this version is later than `other`.
    pub fn is_later_than(&self, other: &IosVersion) -> (r: bool)
        ensures
            r == version_gt(*self, *other),
    {
        self.major > other.major || (self.major == other.major && self.minor > other.minor)
    }
}

/// The decimal digits of a number are a non-empty run of digits that
/// denotes it again.
pub proof fn lemma_decimal_digits(n: nat)
    ensures
        radix_digits(n, 10).len() > 0,
        all_digits(radix_digits(n, 10)),
        digits_value(radix_digits(n, 10)) == n,
    decreases n,
{
    let s = radix_digits(n, 10);
    assert(digit_char(n % 10) as nat == 48 + n % 10);
    assert(((digit_char(n % 10) as nat) - 48) as nat == n % 10);
    if n < 10 {
        assert(n % 10 == n);
        assert(digits_value(s.drop_last()) == 0);
        assert(digits_value(s) == digits_value(s.drop_last()) * 10 + ((s.last() as nat) - 48) as nat);
        assert(s == seq![digit_char(n)]);
        assert(s.drop_last() =~= Seq::<char>::empty());
        assert(s.last() == digit_char(n));
    } else {
        assert(n / 10 < n);
        lemma_decimal_digits(n / 10);
        let t = radix_digits(n / 10, 10);
        assert(s == t + seq![digit_char(n % 10)]);
        assert(s.drop_last() =~= t);
        assert(s.last() == digit_char(n % 10));
        assert(n == (n / 10) * 10 + n % 10);
        assert forall|i: int| 0 <= i < s.len() implies is_digit(#[trigger] s[i]) by {
            if i < t.len() {
                assert(s[i] == t[i]);
            }
        }
    }
}

/// Reading back the text of a version gives that version.
pub proof fn lemma_version_text_round_trip(v: IosVersion)
    ensures
        version_of(version_text(v), '.') == Some(v),
{
    let a = radix_digits(v.major as nat, 10);
    let b = radix_digits(v.minor as nat, 10);
    lemma_decimal_digits(v.major as nat);
    lemma_decimal_digits(v.minor as nat);
    let s = version_text(v);
    let k = a.len() as int;
    assert(s[k] == '.');
    assert forall|j: int| 0 <= j < k implies s[j] != '.' by {
        assert(s[j] == a[j]);
        assert(is_digit(a[j]));
    }
    let m = choose|m: int| 0 <= m < s.len() && s[m] == '.' && forall|j: int| 0 <= j < m ==> s[j] != '.';
    assert(m == k) by {
        if m > k {
            assert(s[k] != '.');
        }
    }
    assert(s.subrange(0, k) =~= a);
    assert(s.subrange(k + 1, s.len() as int) =~= b);
}

/// One device entry of a `simctl list devices -j` listing. A field that is
/// missing or of another JSON type is `None`.
#[derive(Clone, Debug, PartialEq)]
pub struct SimctlEntry {
    pub udid: Option<String>,
    pub name: Option<String>,
    pub is_available: Option<bool>,
}

/// One runtime of a `simctl` listing: its key and, where the listing holds
/// an array there, its devices.
#[derive(Clone, Debug, PartialEq)]
pub struct SimctlRuntime {
    pub key: String,
    pub entries: Option<Vec<SimctlEntry>>,
}

/// Whether an entry can be used: not marked unavailable, with a udid and a
/// name, and the wanted name where one is wanted.
pub open spec fn entry_fits(e: SimctlEntry, name: Option<Seq<char>>) -> bool {
    &&& e.is_available != Some(false)
    &&& e.udid is Some
    &&& e.name is Some
    &&& (name matches Some(n) ==> e.name->0@ == n)
}

/// The first entry that fits.
pub open spec fn first_fit(entries: Seq<SimctlEntry>, name: Option<Seq<char>>) -> Option<SimctlEntry>
    decreases entries.len(),
{
    if entries.len() == 0 {
        None
    } else if entry_fits(entries[0], name) {
        Some(entries[0])
    } else {
        first_fit(entries.drop_first(), name)
    }
}

/// What a runtime offers: its first fitting entry with its version, when the
/// key names an iOS version that is the wanted one (if one is wanted).
pub open spec fn runtime_candidate(
    rt: SimctlRuntime,
    want: Option<IosVersion>,
    name: Option<Seq<char>>,
) -> Option<(SimctlEntry, IosVersion)> {
    match runtime_version(rt.key@) {
        None => None,
        Some(v) => if want matches Some(w) && w != v {
            None
        } else {
            match rt.entries {
                None => None,
                Some(es) => match first_fit(es@, name) {
                    None => None,
                    Some(e) => Some((e, v)),
                },
            }
        },
    }
}

/// The candidate picked from a listing: the one on the latest runtime; of
/// candidates on equal versions, the earliest.
pub open spec fn picked(
    rts: Seq<SimctlRuntime>,
    want: Option<IosVersion>,
    name: Option<Seq<char>>,
) -> Option<(SimctlEntry, IosVersion)>
    decreases rts.len(),
{
    if rts.len() == 0 {
        None
    } else {
        let before = picked(rts.drop_last(), want, name);
        match runtime_candidate(rts.last(), want, name) {
            None => before,
            Some(c) => match before {
                None => Some(c),
                Some(p) => if version_gt(c.1, p.1) {
                    Some(c)
                } else {
                    before
                },
            },
        }
    }
}

/// "Later than" orders versions strictly and totally, the major number
/// first: of two different versions one is later; a larger major number is
/// later whatever the minor ones; with equal major numbers the larger minor
/// number is later.
pub proof fn lemma_version_order(a: IosVersion, b: IosVersion, c: IosVersion)
    ensures
        !version_gt(a, a),
        version_gt(a, b) ==> !version_gt(b, a),
        version_gt(a, b) && version_gt(b, c) ==> version_gt(a, c),
        a != b ==> version_gt(a, b) || version_gt(b, a),
        a.major > b.major ==> version_gt(a, b),
        a.major == b.major && a.minor > b.minor ==> version_gt(a, b),
        a.major < b.major ==> !version_gt(a, b),
{
}

/// A runtime's candidate, by position.
pub open spec fn candidate_at(rts: Seq<SimctlRuntime>, i: int, want: Option<IosVersion>, name: Option<Seq<char>>) -> Option<(SimctlEntry, IosVersion)> {
    runtime_candidate(rts[i], want, name)
}

proof fn lemma_picked_step(rts: Seq<SimctlRuntime>, want: Option<IosVersion>, name: Option<Seq<char>>)
    requires
        rts.len() > 0,
    ensures
        picked(rts, want, name) == match candidate_at(rts, rts.len() - 1, want, name) {
            None => picked(rts.drop_last(), want, name),
            Some(c) => match picked(rts.drop_last(), want, name) {
                None => Some(c),
                Some(p) => if version_gt(c.1, p.1) {
                    Some(c)
                } else {
                    Some(p)
                },
            },
        },
        forall|i: int| 0 <= i < rts.len() - 1 ==> candidate_at(rts.drop_last(), i, want, name) == #[trigger] candidate_at(rts, i, want, name),
{
    assert(rts[rts.len() - 1] == rts.last());
    assert forall|i: int| 0 <= i < rts.len() - 1 implies candidate_at(rts.drop_last(), i, want, name) == #[trigger] candidate_at(rts, i, want, name) by {
        assert(rts.drop_last()[i] == rts[i]);
    }
}

/// The device picked from a listing is on the latest runtime that offers
/// one: no runtime with a fitting entry has a later version, and the pick
/// is one runtime's candidate; nothing is picked exactly when no runtime
/// has a fitting entry.
#[verifier::rlimit(40)]
pub proof fn lemma_picked_is_latest(rts: Seq<SimctlRuntime>, want: Option<IosVersion>, name: Option<Seq<char>>)
    ensures
        picked(rts, want, name) is None <==> forall|i: int| 0 <= i < rts.len() ==> #[trigger] candidate_at(rts, i, want, name) is None,
        picked(rts, want, name) matches Some(c) ==> exists|i: int| 0 <= i < rts.len() && #[trigger] candidate_at(rts, i, want, name) == Some(c),
        picked(rts, want, name) matches Some(c) ==> forall|i: int| 0 <= i < rts.len() ==> (#[trigger] candidate_at(rts, i, want, name) matches Some(d)
            ==> !version_gt(d.1, c.1)),
    decreases rts.len(),
{
    if rts.len() > 0 {
        let before = rts.drop_last();
        let n = rts.len() - 1;
        lemma_picked_is_latest(before, want, name);
        lemma_picked_step(rts, want, name);
        let last = candidate_at(rts, n, want, name);
        let prev = picked(before, want, name);
        if let Some(c) = picked(rts, want, name) {
            if prev == Some(c) && !(last matches Some(x) && version_gt(x.1, c.1)) {
                let k = choose|i: int| 0 <= i < before.len() && #[trigger] candidate_at(before, i, want, name) == Some(c);
                assert(candidate_at(rts, k, want, name) == Some(c));
            } else {
                assert(last == Some(c));
            }
            assert forall|i: int| 0 <= i < rts.len() implies (#[trigger] candidate_at(rts, i, want, name) matches Some(d)
                ==> !version_gt(d.1, c.1)) by {
                if let Some(d) = candidate_at(rts, i, want, name) {
                    if i < n {
                        assert(candidate_at(before, i, want, name) == Some(d));
                        let p = prev->0;
                        assert(!version_gt(d.1, p.1));
                        lemma_version_order(d.1, p.1, c.1);
                        lemma_version_order(c.1, p.1, d.1);
                        lemma_version_order(d.1, c.1, p.1);
                    } else {
                        lemma_version_order(c.1, d.1, c.1);
                        if let Some(p) = prev {
                            lemma_version_order(d.1, p.1, c.1);
                            lemma_version_order(c.1, d.1, p.1);
                        }
                    }
                }
            }
        } else {
            assert forall|i: int| 0 <= i < rts.len() implies #[trigger] candidate_at(rts, i, want, name) is None by {
                if i < n {
                    assert(candidate_at(before, i, want, name) is None);
                }
            }
        }
        if forall|i: int| 0 <= i < rts.len() ==> #[trigger] candidate_at(rts, i, want, name) is None {
            assert forall|i: int| 0 <= i < before.len() implies #[trigger] candidate_at(before, i, want, name) is None by {
                assert(candidate_at(rts, i, want, name) is None);
            }
            assert(candidate_at(rts, n, want, name) is None);
        }
    }
}

/// A simulator device: its udid, its name and its runtime version.
#[derive(Clone, Debug, PartialEq, Eq)]
pub struct SimulatorDevice {
    pub udid: String,
    pub name: String,
    pub version: Option<IosVersion>,
}

/// Whether `d` is the device made of a picked candidate.
pub open spec fn device_of(d: SimulatorDevice, c: (SimctlEntry, IosVersion)) -> bool {
    &&& d.udid@ == c.0.udid->0@
    &&& d.name@ == c.0.name->0@
    &&& d.version == Some(c.1)
}

/// The result of picking from a listing, as the device it gives.
pub open spec fn pick_result(
    r: Option<SimulatorDevice>,
    rts: Seq<SimctlRuntime>,
    want: Option<IosVersion>,
    name: Option<Seq<char>>,
) -> bool {
    match picked(rts, want, name) {
        None => r is None,
        Some(c) => r matches Some(d) && device_of(d, c),
    }
}

/// The name as a spec value.
pub open spec fn name_view(name: Option<&str>) -> Option<Seq<char>> {
    match name {
        Some(n) => Some(n@),
        None => None,
    }
}

/// The version as a spec value.
pub open spec fn want_view(want: Option<&IosVersion>) -> Option<IosVersion> {
    match want {
        Some(w) => Some(*w),
        None => None,
    }
}

/// An entry of a listing as plain values: udid, name, availability.
pub open spec fn entry_view(e: SimctlEntry) -> (Option<Seq<char>>, Option<Seq<char>>, Option<bool>) {
    (
        match e.udid {
            Some(u) => Some(u@),
            None => None,
        },
        match e.name {
            Some(n) => Some(n@),
            None => None,
        },
        e.is_available,
    )
}

/// A runtime of a listing as plain values: its key and its entries.
pub open spec fn runtime_view(rt: SimctlRuntime) -> (Seq<char>, Option<Seq<(Option<Seq<char>>, Option<Seq<char>>, Option<bool>)>>) {
    (
        rt.key@,
        match rt.entries {
            Some(es) => Some(es@.map_values(|e: SimctlEntry| entry_view(e))),
            None => None,
        },
    )
}

/// A listing as plain values.
pub open spec fn runtimes_view(rts: Seq<SimctlRuntime>) -> Seq<(Seq<char>, Option<Seq<(Option<Seq<char>>, Option<Seq<char>>, Option<bool>)>>)> {
    rts.map_values(|rt: SimctlRuntime| runtime_view(rt))
}

/// The runtimes of a `simctl list devices -j` listing as `serde_json` reads
/// it: the members of its `devices` object in key order, each entry's
/// `udid` and `name` where they are strings and `isAvailable` where it is a
/// boolean; `None` when the bytes are not JSON or hold no `devices` object.
pub uninterp spec fn simctl_listing_of(bytes: Seq<u8>) -> Option<
    Seq<(Seq<char>, Option<Seq<(Option<Seq<char>>, Option<Seq<char>>, Option<bool>)>>)>,
>;

/// Trusted: calls `serde_json::from_slice` into a `serde_json::Value`,
/// takes its `devices` object and, for each member, its key and, where the
/// member is an array, each element's `udid` and `name` (`as_str`) and
/// `isAvailable` (`as_bool`). What the listing holds is only named.
#[verifier::external_body]
fn simctl_listing(bytes: &[u8]) -> (r: Option<Vec<SimctlRuntime>>)
    ensures
        match simctl_listing_of(bytes@) {
            None => r is None,
            Some(v) => r matches Some(rts) && runtimes_view(rts@) == v,
        },
{
    let parsed: serde_json::Value = serde_json::from_slice(bytes).ok()?;
    let text = |v: &serde_json::Value, k: &str| v.get(k).and_then(|v| v.as_str()).map(str::to_owned);
    Some(parsed.get("devices")?.as_object()?.iter().map(|(key, entries)| SimctlRuntime {
        key: key.clone(),
        entries: entries.as_array().map(|entries| entries.iter().map(|e| SimctlEntry {
            udid: text(e, "udid"),
            name: text(e, "name"),
            is_available: e.get("isAvailable").and_then(|v| v.as_bool()),
        }).collect()),
    }).collect())
}

/// A candidate as plain values.
pub open spec fn candidate_view(c: Option<(SimctlEntry, IosVersion)>) -> Option<((Option<Seq<char>>, Option<Seq<char>>, Option<bool>), IosVersion)> {
    match c {
        Some((e, v)) => Some((entry_view(e), v)),
        None => None,
    }
}

proof fn lemma_first_fit_by_view(a: Seq<SimctlEntry>, b: Seq<SimctlEntry>, name: Option<Seq<char>>)
    requires
        a.map_values(|e: SimctlEntry| entry_view(e)) == b.map_values(|e: SimctlEntry| entry_view(e)),
    ensures
        match (first_fit(a, name), first_fit(b, name)) {
            (None, None) => true,
            (Some(x), Some(y)) => entry_view(x) == entry_view(y) && entry_fits(x, name) && entry_fits(y, name),
            _ => false,
        },
    decreases a.len(),
{
    let va = a.map_values(|e: SimctlEntry| entry_view(e));
    let vb = b.map_values(|e: SimctlEntry| entry_view(e));
    assert(a.len() == va.len() && b.len() == vb.len());
    if a.len() > 0 {
        assert(va[0] == entry_view(a[0]) && vb[0] == entry_view(b[0]));
        assert(a.drop_first().map_values(|e: SimctlEntry| entry_view(e)) =~= va.drop_first());
        assert(b.drop_first().map_values(|e: SimctlEntry| entry_view(e)) =~= vb.drop_first());
        lemma_first_fit_by_view(a.drop_first(), b.drop_first(), name);
    }
}

proof fn lemma_picked_by_view(a: Seq<SimctlRuntime>, b: Seq<SimctlRuntime>, want: Option<IosVersion>, name: Option<Seq<char>>)
    requires
        runtimes_view(a) == runtimes_view(b),
    ensures
        candidate_view(picked(a, want, name)) == candidate_view(picked(b, want, name)),
    decreases a.len(),
{
    assert(a.len() == runtimes_view(a).len() && b.len() == runtimes_view(b).len());
    if a.len() > 0 {
        assert(runtimes_view(a.drop_last()) =~= runtimes_view(a).drop_last());
        assert(runtimes_view(b.drop_last()) =~= runtimes_view(b).drop_last());
        lemma_picked_by_view(a.drop_last(), b.drop_last(), want, name);
        let ra = a.last();
        let rb = b.last();
        assert(runtime_view(ra) == runtimes_view(a)[a.len() - 1]);
        assert(runtime_view(rb) == runtimes_view(b)[b.len() - 1]);
        assert(ra.key@ == rb.key@);
        match (ra.entries, rb.entries) {
            (Some(ea), Some(eb)) => {
                lemma_first_fit_by_view(ea@, eb@, name);
            },
            _ => {},
        }
        assert(candidate_view(runtime_candidate(ra, want, name)) == candidate_view(runtime_candidate(rb, want, name)));
    }
}

/// What is picked depends only on what the listing holds, as plain values.
pub proof fn lemma_pick_depends_on_view(
    a: Seq<SimctlRuntime>,
    b: Seq<SimctlRuntime>,
    r: Option<SimulatorDevice>,
    want: Option<IosVersion>,
    name: Option<Seq<char>>,
)
    requires
        runtimes_view(a) == runtimes_view(b),
    ensures
        pick_result(r, a, want, name) == pick_result(r, b, want, name),
{
    lemma_picked_by_view(a, b, want, name);
}

/// The device picked from a listing's bytes: none when they are not a
/// listing, else the pick over its runtimes.
pub open spec fn listing_pick(
    r: Option<SimulatorDevice>,
    bytes: Seq<u8>,
    want: Option<IosVersion>,
    name: Option<Seq<char>>,
) -> bool {
    match simctl_listing_of(bytes) {
        None => r is None,
        Some(v) => exists|rts: Seq<SimctlRuntime>| runtimes_view(rts) == v && #[trigger] pick_result(r, rts, want, name),
    }
}

/// What running `xcrun simctl list devices <scope> -j` gave: whether it
/// exited successfully, its output and its error output as text.
#[derive(Clone, Debug)]
pub struct CommandOutput {
    pub success: bool,
    pub stdout: Vec<u8>,
    pub stderr: String,
}

/// What `booted_or_boot` does next.
#[derive(Clone, Debug, PartialEq, Eq)]
pub enum BootStep {
    /// A matching device is booted already: use it.
    Ready(SimulatorDevice),
    /// None is booted: list the available devices and ask again.
    ListAvailable,
    /// Boot this available device, then use it.
    Boot(SimulatorDevice),
    /// Nothing can be used, for this reason.
    Fail(String),
}

/// The message when no available device matches.
pub open spec fn unavailable_message(want: Option<IosVersion>, name: Option<Seq<char>>) -> Seq<char> {
    "no available iOS Simulator"@ + match name {
        Some(n) => " named "@ + n,
        None => Seq::empty(),
    } + match want {
        Some(v) => " for iOS "@ + version_text(v),
        None => Seq::empty(),
    }
}

/// The first fitting entry from position `i` on.
fn first_fit_exec(entries: &Vec<SimctlEntry>, name: Option<&str>) -> (r: Option<usize>)
    ensures
        match first_fit(entries@, name_view(name)) {
            None => r is None,
            Some(e) => r matches Some(i) && i < entries@.len() && entries@[i as int] == e
                && entry_fits(e, name_view(name)),
        },
{
    let mut i: usize = 0;
    assert(entries@.subrange(0, entries@.len() as int) =~= entries@);
    while i < entries.len()
        invariant
            i <= entries@.len(),
            first_fit(entries@, name_view(name)) == first_fit(entries@.subrange(i as int, entries@.len() as int), name_view(name)),
        decreases entries@.len() - i,
    {
        let ghost rest = entries@.subrange(i as int, entries@.len() as int);
        let e = &entries[i];
        let fits = match (&e.udid, &e.name) {
            (Some(_), Some(n)) => e.is_available != Some(false) && match name {
                Some(wanted) => str_eq(wanted, n.as_str()),
                None => true,
            },
            _ => false,
        };
        assert(rest[0] == *e);
        if fits {
            assert(entry_fits(*e, name_view(name)));
            return Some(i);
        }
        assert(rest.drop_first() =~= entries@.subrange(i + 1, entries@.len() as int));
        i = i + 1;
    }
    proof {
        assert(entries@.subrange(0, entries@.len() as int) =~= entries@);
    }
    None
}

impl SimulatorDevice {
    /// Picks a device out of a `simctl list devices -j` listing: on each iOS
    /// runtime (of the wanted version, if one is wanted) the first entry that
    /// is not unavailable and carries the wanted name (if one is wanted);
    /// of those, the one on the latest runtime.
    pub fn select(runtimes: &[SimctlRuntime], want: Option<&IosVersion>, device_name: Option<&str>) -> (r: Option<Self>)
        ensures
            pick_result(r, runtimes@, want_view(want), name_view(device_name)),
    {
        let ghost w = want_view(want);
        let ghost nm = name_view(device_name);
        let mut selected: Option<SimulatorDevice> = None;
        let mut i: usize = 0;
        while i < runtimes.len()
            invariant
                i <= runtimes@.len(),
                w == want_view(want),
                nm == name_view(device_name),
                pick_result(selected, runtimes@.subrange(0, i as int), w, nm),
            decreases runtimes@.len() - i,
        {
            let ghost prefix = runtimes@.subrange(0, i + 1);
            proof {
                assert(prefix.drop_last() =~= runtimes@.subrange(0, i as int));
                assert(prefix.last() == runtimes@[i as int]);
            }
            let rt = &runtimes[i];
            let version = IosVersion::from_runtime_key(rt.key.as_str());
            if let Some(v) = version {
                let wanted = match want {
                    Some(wv) => wv.major == v.major && wv.minor == v.minor,
                    None => true,
                };
                if wanted {
                    if let Some(entries) = &rt.entries {
                        if let Some(k) = first_fit_exec(entries, device_name) {
                            let e = &entries[k];
                            let replace = match &selected {
                                Some(current) => match &current.version {
                                    Some(cv) => v.is_later_than(cv),
                                    None => true,
                                },
                                None => true,
                            };
                            proof {
                                assert(runtime_candidate(prefix.last(), w, nm) == Some((*e, v)));
                            }
                            if replace {
                                let udid = match &e.udid {
                                    Some(u) => u.clone(),
                                    None => String::new(),
                                };
                                let name = match &e.name {
                                    Some(n) => n.clone(),
                                    None => String::new(),
                                };
                                selected = Some(SimulatorDevice { udid, name, version: Some(v) });
                                assert(pick_result(selected, prefix, w, nm));
                            } else {
                                assert(pick_result(selected, prefix, w, nm));
                            }
                        } else {
                            assert(runtime_candidate(prefix.last(), w, nm) is None);
                        }
                    } else {
                        assert(runtime_candidate(prefix.last(), w, nm) is None);
                    }
                } else {
                    assert(runtime_candidate(prefix.last(), w, nm) is None);
                }
            } else {
                assert(runtime_candidate(prefix.last(), w, nm) is None);
            }
            assert(pick_result(selected, prefix, w, nm));
            i = i + 1;
        }
        assert(runtimes@.subrange(0, runtimes@.len() as int) =~= runtimes@);
        selected
    }

    /// The device picked out of the bytes of a `simctl list devices -j`
    /// listing; none when they are not JSON with a `devices` object.
    pub fn from_simctl_json(bytes: &[u8], want: Option<&IosVersion>, device_name: Option<&str>) -> (r: Option<Self>)
        ensures
            listing_pick(r, bytes@, want_view(want), name_view(device_name)),
    {
        match simctl_listing(bytes) {
            None => None,
            Some(runtimes) => {
                let r = Self::select(runtimes.as_slice(), want, device_name);
                assert(pick_result(r, runtimes@, want_view(want), name_view(device_name)));
                r
            },
        }
    }

    /// The device a listing of `scope` gives: the listing's error when
    /// `simctl` could not run (`output` is its error text) or failed, else
    /// the device picked out of its output.
    pub fn listed(scope: &str, output: Result<CommandOutput, String>, want: Option<&IosVersion>, device_name: Option<&str>) -> (r: Result<Option<Self>, String>)
        ensures
            match output {
                Err(e) => r matches Err(m) && m@ == "could not run simctl: "@ + e@,
                Ok(o) => if !o.success {
                    r matches Err(m) && m@ == "simctl could not list "@ + scope@ + " devices: "@ + trim_end(trim_start(o.stderr@))
                } else {
                    r matches Ok(d) && listing_pick(d, o.stdout@, want_view(want), name_view(device_name))
                },
            },
    {
        match output {
            Err(e) => {
                let mut m = "could not run simctl: ".to_owned();
                push_str(&mut m, e.as_str());
                Err(m)
            },
            Ok(o) => {
                if !o.success {
                    let mut m = "simctl could not list ".to_owned();
                    push_str(&mut m, scope);
                    push_str(&mut m, " devices: ");
                    let trimmed = trim_text(o.stderr.as_str());
                    let t = string_of(trimmed.as_slice());
                    push_str(&mut m, t.as_str());
                    Err(m)
                } else {
                    Ok(Self::from_simctl_json(o.stdout.as_slice(), want, device_name))
                }
            },
        }
    }

    /// The booted device matching the wanted version and name, given the
    /// result of listing the booted devices; a failed listing gives none.
    pub fn booted_matching(booted: Result<Option<Self>, String>) -> (r: Option<Self>)
        ensures
            r == match booted {
                Ok(d) => d,
                Err(_) => None,
            },
    {
        match booted {
            Ok(d) => d,
            Err(_) => None,
        }
    }

    /// The booted device of any version and name, given the result of
    /// listing the booted devices.
    pub fn booted(booted: Result<Option<Self>, String>) -> (r: Option<Self>)
        ensures
            r == match booted {
                Ok(d) => d,
                Err(_) => None,
            },
    {
        Self::booted_matching(booted)
    }

    /// Decides how to get a device: the booted one if there is one; else
    /// list the available ones; of those, boot the picked one, or fail with
    /// the listing's error or with a message that names what was wanted.
    pub fn booted_or_boot(
        booted: Option<Self>,
        available: Option<Result<Option<Self>, String>>,
        want: Option<&IosVersion>,
        device_name: Option<&str>,
    ) -> (r: BootStep)
        ensures
            match (booted, available) {
                (Some(d), _) => r == BootStep::Ready(d),
                (None, None) => r == BootStep::ListAvailable,
                (None, Some(Err(e))) => r == BootStep::Fail(e),
                (None, Some(Ok(Some(d)))) => r == BootStep::Boot(d),
                (None, Some(Ok(None))) => r matches BootStep::Fail(m) && m@ == unavailable_message(
                    want_view(want),
                    name_view(device_name),
                ),
            },
    {
        if let Some(d) = booted {
            return BootStep::Ready(d);
        }
        match available {
            None => BootStep::ListAvailable,
            Some(Err(e)) => BootStep::Fail(e),
            Some(Ok(Some(d))) => BootStep::Boot(d),
            Some(Ok(None)) => {
                let mut m = String::new();
                push_str(&mut m, "no available iOS Simulator");
                if let Some(n) = device_name {
                    push_str(&mut m, " named ");
                    push_str(&mut m, n);
                }
                if let Some(v) = want {
                    push_str(&mut m, " for iOS ");
                    let t = v.text();
                    push_str(&mut m, t.as_str());
                }
                proof {
                    let mid = match name_view(device_name) {
                        Some(n) => " named "@ + n,
                        None => Seq::<char>::empty(),
                    };
                    let tail = match want_view(want) {
                        Some(v) => " for iOS "@ + version_text(v),
                        None => Seq::<char>::empty(),
                    };
                    assert(m@ =~= "no available iOS Simulator"@ + mid + tail);
                }
                BootStep::Fail(m)
            },
        }
    }

    /// The `xcrun simctl` call that lists the devices of a scope
    /// (`booted` or `available`) as JSON.
    pub fn list_invocation(scope: &str) -> (r: Invocation)
        ensures
            r.runs("xcrun"@, seq!["simctl"@, "list"@, "devices"@, scope@, "-j"@]),
    {
        let mut r = Invocation::new("xcrun");
        r.arg("simctl");
        r.arg("list");
        r.arg("devices");
        r.arg(scope);
        r.arg("-j");
        assert(arg_views(r.args@) =~= seq!["simctl"@, "list"@, "devices"@, scope@, "-j"@]);
        r
    }

    /// The `xcrun simctl` calls that boot this device and wait until it is.
    pub fn boot_invocations(&self) -> (r: (Invocation, Invocation))
        ensures
            r.0.runs("xcrun"@, seq!["simctl"@, "boot"@, self.udid@]),
            r.1.runs("xcrun"@, seq!["simctl"@, "bootstatus"@, self.udid@, "-b"@]),
    {
        let mut boot = Invocation::new("xcrun");
        boot.arg("simctl");
        boot.arg("boot");
        boot.arg(self.udid.as_str());
        let mut ready = Invocation::new("xcrun");
        ready.arg("simctl");
        ready.arg("bootstatus");
        ready.arg(self.udid.as_str());
        ready.arg("-b");
        assert(arg_views(boot.args@) =~= seq!["simctl"@, "boot"@, self.udid@]);
        assert(arg_views(ready.args@) =~= seq!["simctl"@, "bootstatus"@, self.udid@, "-b"@]);
        (boot, ready)
    }

    /// The width and height of a PNG image, read from its IHDR chunk.
    pub fn png_size(bytes: &[u8]) -> (r: Option<(u32, u32)>)
        ensures
            r == png_dimensions(bytes@),
    {
        if bytes.len() < 24 {
            return None;
        }
        let sig: [u8; 8] = [0x89, 0x50, 0x4e, 0x47, 0x0d, 0x0a, 0x1a, 0x0a];
        let ihdr: [u8; 4] = [0x49, 0x48, 0x44, 0x52];
        let mut i: usize = 0;
        while i < 8
            invariant
                i <= 8,
                bytes@.len() >= 24,
                sig@ == png_signature(),
                forall|j: int| 0 <= j < i ==> bytes@[j] == sig@[j],
            decreases 8 - i,
        {
            if bytes[i] != sig[i] {
                return None;
            }
            i = i + 1;
        }
        assert(bytes@.subrange(0, 8) =~= png_signature());
        let mut j: usize = 0;
        while j < 4
            invariant
                j <= 4,
                bytes@.len() >= 24,
                ihdr@ == ihdr_tag(),
                bytes@.subrange(0, 8) == png_signature(),
                forall|k: int| 0 <= k < j ==> bytes@[12 + k] == ihdr@[k],
            decreases 4 - j,
        {
            if bytes[12 + j] != ihdr[j] {
                assert(bytes@.subrange(12, 16)[j as int] != ihdr_tag()[j as int]);
                return None;
            }
            j = j + 1;
        }
        assert(bytes@.subrange(12, 16) =~= ihdr_tag());
        let width = be_u32(bytes[16], bytes[17], bytes[18], bytes[19]);
        let height = be_u32(bytes[20], bytes[21], bytes[22], bytes[23]);
        if width > 0 && height > 0 {
            Some((width, height))
        } else {
            None
        }
    }
}

/// The eight bytes every PNG file starts with.
pub open spec fn png_signature() -> Seq<u8> {
    seq![0x89u8, 0x50u8, 0x4eu8, 0x47u8, 0x0du8, 0x0au8, 0x1au8, 0x0au8]
}

/// The chunk type `IHDR`.
pub open spec fn ihdr_tag() -> Seq<u8> {
    seq![0x49u8, 0x48u8, 0x44u8, 0x52u8]
}

/// A big-endian 32-bit number.
pub open spec fn be(a: u8, b: u8, c: u8, d: u8) -> nat {
    a as nat * 0x100_0000 + b as nat * 0x1_0000 + c as nat * 0x100 + d as nat
}

/// The pixel size a PNG header gives: the signature, then `IHDR` at bytes
/// 12 to 16, then the width and height as big-endian numbers, both above
/// zero.
pub open spec fn png_dimensions(b: Seq<u8>) -> Option<(u32, u32)> {
    if b.len() >= 24 && b.subrange(0, 8) == png_signature() && b.subrange(12, 16) == ihdr_tag() {
        let w = be(b[16], b[17], b[18], b[19]);
        let h = be(b[20], b[21], b[22], b[23]);
        if w > 0 && h > 0 {
            Some((w as u32, h as u32))
        } else {
            None
        }
    } else {
        None
    }
}

/// Reads four bytes as a big-endian number.
fn be_u32(a: u8, b: u8, c: u8, d: u8) -> (r: u32)
    ensures
        r as nat == be(a, b, c, d),
{
    (a as u32) * 0x100_0000 + (b as u32) * 0x1_0000 + (c as u32) * 0x100 + (d as u32)
}

/// The paths the `axe` tool is looked for at, in order: on the `PATH`, in
/// the two Homebrew prefixes, then the copy bundled with the app if there is
/// one.
pub open spec fn axe_candidates(bundled: Option<Seq<char>>) -> Seq<Seq<char>> {
    seq!["axe"@, "/opt/homebrew/bin/axe"@, "/usr/local/bin/axe"@] + match bundled {
        Some(b) => seq![b],
        None => Seq::empty(),
    }
}

/// The `axe` command-line tool that drives the simulator.
#[derive(Clone, Debug, PartialEq, Eq)]
pub struct Axe {
    path: String,
}

impl Axe {
    /// The tool's name on the `PATH`.
    pub const BIN: &'static str = "axe";

    /// The view of the tool: where it is.
    pub closed spec fn location(&self) -> Seq<char> {
        self.path@
    }

    /// The tool at `path`.
    pub fn at(path: String) -> (r: Self)
        ensures
            r.location() == path@,
    {
        Axe { path }
    }

    /// Where the tool is.
    pub fn path(&self) -> (r: &str)
        ensures
            r@ == self.location(),
    {
        self.path.as_str()
    }

    /// The paths to probe for the tool, in order.
    pub fn candidates(bundled: Option<String>) -> (r: Vec<String>)
        ensures
            r@.map_values(|p: String| p@) == axe_candidates(match bundled {
                Some(b) => Some(b@),
                None => None,
            }),
    {
        let mut r: Vec<String> = Vec::new();
        r.push(Self::BIN.to_owned());
        r.push("/opt/homebrew/bin/axe".to_owned());
        r.push("/usr/local/bin/axe".to_owned());
        if let Some(b) = bundled {
            r.push(b);
        }
        assert(r@.map_values(|p: String| p@) =~= axe_candidates(match bundled {
            Some(b) => Some(b@),
            None => None,
        }));
        r
    }

    /// The call that asks a candidate for its version.
    pub fn version_invocation(path: &str) -> (r: Invocation)
        ensures
            r.runs(path@, seq!["--version"@]),
    {
        let mut r = Invocation::new(path);
        r.arg("--version");
        assert(arg_views(r.args@) =~= seq!["--version"@]);
        r
    }
}

} // verus!
