//! Where the simulator tooling's HID broker listens: the socket path is
//! derived from the simulator, the Xcode developer directory and the user.
use vstd::prelude::*;
use vstd::string::StringSliceAdditionalSpecFns;
use crate::text::{chars_of, push_char, push_str, radix, radix_digits};

verus! {

/// The FNV-1a 64-bit offset basis.
pub const FNV_OFFSET: u64 = 14695981039346656037;

/// The FNV-1a 64-bit prime.
pub const FNV_PRIME: u64 = 1099511628211;

/// FNV-1a over a byte sequence: start from the offset basis, and for each
/// byte xor it in and multiply by the prime, wrapping at 2⁶⁴.
pub open spec fn fnv1a(bytes: Seq<u8>) -> u64
    decreases bytes.len(),
{
    if bytes.len() == 0 {
        FNV_OFFSET
    } else {
        let h = fnv1a(bytes.drop_last()) ^ (bytes.last() as u64);
        ((h as nat * FNV_PRIME as nat) % 0x1_0000_0000_0000_0000nat) as u64
    }
}

/// The FNV-1a hash of the UTF-8 bytes of a string.
pub fn fnv1a64(value: &str) -> (r: u64)
    ensures
        r == fnv1a(value.spec_bytes()),
{
    let bytes = value.as_bytes();
    let mut hash: u64 = FNV_OFFSET;
    let mut i: usize = 0;
    while i < bytes.len()
        invariant
            i <= bytes@.len(),
            hash == fnv1a(bytes@.subrange(0, i as int)),
        decreases bytes@.len() - i,
    {
        proof {
            let prefix = bytes@.subrange(0, i + 1);
            assert(prefix.drop_last() =~= bytes@.subrange(0, i as int));
            assert(prefix.last() == bytes@[i as int]);
        }
        hash = (hash ^ (bytes[i] as u64)).wrapping_mul(FNV_PRIME);
        i = i + 1;
    }
    assert(bytes@.subrange(0, bytes@.len() as int) =~= bytes@);
    hash
}

/// The path `component` joined onto `base`: a `/` is put between them unless
/// `base` is empty or already ends with one (a relative `component`).
pub open spec fn joined(base: Seq<char>, component: Seq<char>) -> Seq<char> {
    if base.len() == 0 || base.last() == '/' {
        base + component
    } else {
        base + seq!['/'] + component
    }
}

/// Joins a relative path component onto a directory path.
pub fn join_path(base: &str, component: &str) -> (r: String)
    ensures
        r@ == joined(base@, component@),
{
    let b = chars_of(base);
    let c = chars_of(component);
    let mut r = crate::text::string_of(b.as_slice());
    if b.len() > 0 && b[b.len() - 1] != '/' {
        push_char(&mut r, '/');
    }
    let mut i: usize = 0;
    let ghost start = r@;
    while i < c.len()
        invariant
            i <= c@.len(),
            r@ =~= start + c@.subrange(0, i as int),
        decreases c@.len() - i,
    {
        push_char(&mut r, c[i]);
        i = i + 1;
    }
    assert(c@.subrange(0, c@.len() as int) =~= c@);
    r
}

/// The per-user directory of broker sockets, `axe-hid-<uid>`.
pub open spec fn endpoint_directory(uid: u32) -> Seq<char> {
    "axe-hid-"@ + radix_digits(uid as nat, 10)
}

/// The socket file name, `<fnv(udid):x>-<fnv(developer):x>-v2.sock`.
pub open spec fn endpoint_file(udid: &str, developer: &str) -> Seq<char> {
    radix_digits(fnv1a(udid.spec_bytes()) as nat, 16) + "-"@ + radix_digits(
        fnv1a(developer.spec_bytes()) as nat,
        16,
    ) + "-v2.sock"@
}

/// Where the HID broker for `udid`, run by the Xcode at `developer` for user
/// `uid`, listens, under the temporary directory `temporary`.
pub fn endpoint_path(udid: &str, developer: &str, temporary: &str, uid: u32) -> (r: String)
    ensures
        r@ == joined(joined(temporary@, endpoint_directory(uid)), endpoint_file(udid, developer)),
{
    let mut directory = "axe-hid-".to_owned();
    let uid_text = radix(uid as u64, 10);
    push_str(&mut directory, uid_text.as_str());
    let mut file = radix(fnv1a64(udid), 16);
    push_str(&mut file, "-");
    let developer_hash = radix(fnv1a64(developer), 16);
    push_str(&mut file, developer_hash.as_str());
    push_str(&mut file, "-v2.sock");
    let parent = join_path(temporary, directory.as_str());
    join_path(parent.as_str(), file.as_str())
}

/// The largest broker message accepted, in bytes.
pub const MAX_MESSAGE_BYTES: usize = 65536;

/// What reading one more byte of a broker message gives.
#[derive(Clone, Debug, PartialEq, Eq)]
pub enum ReadStep {
    /// Read on.
    More,
    /// The message, without its line feed.
    Message(Vec<u8>),
    /// The stream ended first, or the message grew too large.
    Invalid,
}

/// A broker message being read, one byte at a time, up to a line feed.
pub struct BrokerMessage {
    data: Vec<u8>,
}

impl BrokerMessage {
    /// The bytes read so far.
    pub closed spec fn read_so_far(&self) -> Seq<u8> {
        self.data@
    }

    /// Nothing read yet.
    pub fn new() -> (r: Self)
        ensures
            r.read_so_far() == Seq::<u8>::empty(),
    {
        BrokerMessage { data: Vec::new() }
    }

    /// Takes the next byte of the stream (`None` when it ended): a line feed
    /// ends the message, another byte is kept unless that makes the message
    /// larger than the limit.
    pub fn push(&mut self, byte: Option<u8>) -> (r: ReadStep)
        requires
            old(self).read_so_far().len() <= MAX_MESSAGE_BYTES,
        ensures
            match byte {
                None => r == ReadStep::Invalid,
                Some(b) => if b == 10 {
                    r matches ReadStep::Message(m) && m@ == old(self).read_so_far()
                } else {
                    &&& final(self).read_so_far() == old(self).read_so_far().push(b)
                    &&& (r == if final(self).read_so_far().len() > MAX_MESSAGE_BYTES {
                        ReadStep::Invalid
                    } else {
                        ReadStep::More
                    })
                },
            },
    {
        match byte {
            None => ReadStep::Invalid,
            Some(b) => {
                if b == 10 {
                    let mut taken: Vec<u8> = Vec::new();
                    std::mem::swap(&mut taken, &mut self.data);
                    return ReadStep::Message(taken);
                }
                self.data.push(b);
                if self.data.len() > MAX_MESSAGE_BYTES {
                    ReadStep::Invalid
                } else {
                    ReadStep::More
                }
            },
        }
    }
}

/// The call that starts the broker for a device (run with
/// `AXE_HID_STABILIZATION_MS=0`).
pub fn broker_invocation(axe: &str, udid: &str) -> (r: crate::simulator::command::Invocation)
    ensures
        r.runs(axe@, seq!["hid-broker"@, "--udid"@, udid@]),
{
    let mut r = crate::simulator::command::Invocation::new(axe);
    r.arg("hid-broker");
    r.arg("--udid");
    r.arg(udid);
    assert(crate::simulator::command::arg_views(r.args@) =~= seq!["hid-broker"@, "--udid"@, udid@]);
    r
}

/// The call that performs a request without the broker: its fallback
/// arguments, then the device.
pub fn fallback_invocation(axe: &str, arguments: &Vec<String>, udid: &str) -> (r: crate::simulator::command::Invocation)
    ensures
        r.runs(axe@, crate::simulator::command::arg_views(arguments@) + seq!["--udid"@, udid@]),
{
    let mut r = crate::simulator::command::Invocation::new(axe);
    let mut i: usize = 0;
    while i < arguments.len()
        invariant
            i <= arguments@.len(),
            r.program@ == axe@,
            crate::simulator::command::arg_views(r.args@) == crate::simulator::command::arg_views(arguments@.subrange(0, i as int)),
        decreases arguments@.len() - i,
    {
        r.arg(arguments[i].as_str());
        assert(crate::simulator::command::arg_views(arguments@.subrange(0, i + 1)) =~= crate::simulator::command::arg_views(
            arguments@.subrange(0, i as int),
        ).push(arguments@[i as int]@));
        i = i + 1;
    }
    assert(arguments@.subrange(0, arguments@.len() as int) =~= arguments@);
    r.arg("--udid");
    r.arg(udid);
    assert(crate::simulator::command::arg_views(r.args@) =~= crate::simulator::command::arg_views(arguments@) + seq![
        "--udid"@,
        udid@,
    ]);
    r
}

/// A path with a suffix appended to its last component.
pub fn suffixed(path: &str, suffix: &str) -> (r: String)
    ensures
        r@ == path@ + suffix@,
{
    let mut r = path.to_owned();
    push_str(&mut r, suffix);
    r
}

/// Whether a lock file or directory is private: of the expected kind,
/// owned by the user, and closed to group and others.
pub fn private_and_owned(right_kind: bool, owner: u32, uid: u32, mode: u32) -> (r: bool)
    ensures
        r == (right_kind && owner == uid && mode & 0o77 == 0),
{
    right_kind && owner == uid && mode & 0o77 == 0
}

/// Whether a stale endpoint may be removed: it is a socket the user owns.
pub fn removable_endpoint(is_socket: bool, owner: u32, uid: u32) -> (r: bool)
    ensures
        r == (is_socket && owner == uid),
{
    is_socket && owner == uid
}

} // verus!
