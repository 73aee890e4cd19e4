//! The mirrored simulator video: splitting the MJPEG byte stream into JPEG
//! frames, checking the capability in a client's request line, and the
//! latest-frame exchange shared by all clients of one stream.
use vstd::prelude::*;
use crate::text::{occurs_at, seq_contains_seq, seq_starts_with};
use vstd::string::StringSliceAdditionalSpecFns;

verus! {

/// First byte of a JPEG marker.
pub const MARKER: u8 = 0xff;

/// Second byte of the start-of-image marker.
pub const START_OF_IMAGE: u8 = 0xd8;

/// Second byte of the end-of-image marker.
pub const END_OF_IMAGE: u8 = 0xd9;

/// The most bytes a frame, or the garbage before a frame, may take.
pub const MAX_FRAME_BYTES: usize = 33554432;

/// `[MARKER, m1]` stands at position `i` of `s`.
pub open spec fn marker_at(s: Seq<u8>, i: int, m1: u8) -> bool {
    0 <= i && i + 1 < s.len() && s[i] == MARKER && s[i + 1] == m1
}

/// The first position at or after `i` where `[MARKER, m1]` stands.
pub open spec fn find_marker(s: Seq<u8>, m1: u8, i: int) -> Option<int>
    decreases s.len() - i,
{
    if i < 0 || i + 1 >= s.len() {
        None
    } else if s[i] == MARKER && s[i + 1] == m1 {
        Some(i)
    } else {
        find_marker(s, m1, i + 1)
    }
}

/// What the frame splitter makes of a buffer: the complete frames in order,
/// the buffer where it stopped, and whether it stopped inside a frame (a
/// start-of-image was seen but no end-of-image after it).
pub open spec fn scan(buf: Seq<u8>) -> (Seq<Seq<u8>>, Seq<u8>, bool)
    decreases buf.len(),
{
    match find_marker(buf, START_OF_IMAGE, 0) {
        None => (Seq::empty(), buf, false),
        Some(s) => if 0 <= s < buf.len() {
            let rest = buf.subrange(s, buf.len() as int);
            match find_marker(rest, END_OF_IMAGE, 2) {
                None => (Seq::empty(), rest, true),
                Some(e) => if 2 <= e && e + 2 <= rest.len() {
                    let next = scan(rest.subrange(e + 2, rest.len() as int));
                    (seq![rest.subrange(0, e + 2)] + next.0, next.1, next.2)
                } else {
                    (Seq::empty(), rest, true)
                },
            }
        } else {
            (Seq::empty(), buf, false)
        },
    }
}

/// The bytes kept for the next chunk: the unfinished frame, or, outside any
/// frame, a trailing `MARKER` byte that may begin the next start-of-image.
pub open spec fn residue(buf: Seq<u8>) -> Seq<u8> {
    let (_, stop, started) = scan(buf);
    if started {
        stop
    } else if stop.len() > 0 && stop.last() == MARKER {
        seq![MARKER]
    } else {
        Seq::empty()
    }
}

/// Why the frame splitter gave up on a stream.
#[derive(Clone, Copy, Debug, PartialEq, Eq, Structural)]
pub enum MjpegError {
    /// Too many bytes arrived without a start-of-image.
    NoFrameStart,
    /// A frame grew beyond `MAX_FRAME_BYTES` without an end-of-image.
    FrameTooLarge,
}

impl MjpegError {
    /// A sentence describing the error.
    pub fn message(&self) -> (r: String)
        ensures
            r@ == match *self {
                MjpegError::NoFrameStart => "simulator MJPEG stream has no frame start"@,
                MjpegError::FrameTooLarge => "simulator MJPEG frame is too large"@,
            },
    {
        match self {
            MjpegError::NoFrameStart => "simulator MJPEG stream has no frame start".to_owned(),
            MjpegError::FrameTooLarge => "simulator MJPEG frame is too large".to_owned(),
        }
    }
}

/// The first position at or after `from` where `[MARKER, m1]` stands.
fn find_marker_exec(s: &[u8], m1: u8, from: usize) -> (r: Option<usize>)
    ensures
        r is None <==> find_marker(s@, m1, from as int) is None,
        r matches Some(k) ==> find_marker(s@, m1, from as int) == Some(k as int),
{
    let mut i = from;
    while i < s.len() && i + 1 < s.len()
        invariant
            from <= i,
            find_marker(s@, m1, from as int) == find_marker(s@, m1, i as int),
        decreases s@.len() - i,
    {
        if s[i] == MARKER && s[i + 1] == m1 {
            return Some(i);
        }
        i = i + 1;
    }
    None
}

proof fn lemma_find_marker_bounds(s: Seq<u8>, m1: u8, i: int)
    ensures
        find_marker(s, m1, i) matches Some(k) ==> i <= k && k + 1 < s.len() && marker_at(s, k, m1),
    decreases s.len() - i,
{
    if i < 0 || i + 1 >= s.len() {
    } else if s[i] == MARKER && s[i + 1] == m1 {
    } else {
        lemma_find_marker_bounds(s, m1, i + 1);
    }
}

proof fn lemma_find_none_no_marker(s: Seq<u8>, m1: u8, i: int)
    requires
        i >= 0,
        find_marker(s, m1, i) is None,
    ensures
        forall|j: int| i <= j ==> !marker_at(s, j, m1),
    decreases s.len() - i,
{
    if i + 1 < s.len() {
        lemma_find_none_no_marker(s, m1, i + 1);
    }
}

proof fn lemma_find_skip_unmarked(s: Seq<u8>, m1: u8, i: int, k: int)
    requires
        0 <= i <= k,
        forall|j: int| i <= j < k ==> !marker_at(s, j, m1),
    ensures
        find_marker(s, m1, i) == find_marker(s, m1, k),
    decreases k - i,
{
    if i < k && i + 1 < s.len() {
        assert(!marker_at(s, i, m1));
        lemma_find_skip_unmarked(s, m1, i + 1, k);
    }
}

proof fn lemma_find_prefix(a: Seq<u8>, b: Seq<u8>, m1: u8, i: int)
    requires
        find_marker(a, m1, i) is Some,
    ensures
        find_marker(a + b, m1, i) == find_marker(a, m1, i),
    decreases a.len() - i,
{
    let ab = a + b;
    if 0 <= i && i + 1 < a.len() {
        assert(ab[i] == a[i] && ab[i + 1] == a[i + 1]);
        if !(a[i] == MARKER && a[i + 1] == m1) {
            lemma_find_prefix(a, b, m1, i + 1);
        }
    }
}

proof fn lemma_find_shift(x: Seq<u8>, m1: u8, k: int, j: int)
    requires
        0 <= k <= x.len(),
        0 <= j,
    ensures
        find_marker(x.subrange(k, x.len() as int), m1, j) == (match find_marker(x, m1, j + k) {
            Some(p) => Some(p - k),
            None => None,
        }),
    decreases x.len() - k - j,
{
    let y = x.subrange(k, x.len() as int);
    if j + 1 < y.len() {
        assert(y[j] == x[j + k] && y[j + 1] == x[j + k + 1]);
        if !(y[j] == MARKER && y[j + 1] == m1) {
            lemma_find_shift(x, m1, k, j + 1);
        }
    }
}

proof fn lemma_scan_same_start(x: Seq<u8>, y: Seq<u8>, p: int, q: int)
    requires
        find_marker(x, START_OF_IMAGE, 0) == Some(p),
        find_marker(y, START_OF_IMAGE, 0) == Some(q),
        x.subrange(p, x.len() as int) == y.subrange(q, y.len() as int),
    ensures
        scan(x) == scan(y),
{
    lemma_find_marker_bounds(x, START_OF_IMAGE, 0);
    lemma_find_marker_bounds(y, START_OF_IMAGE, 0);
}

/// The splitter stops inside what it scans.
proof fn lemma_scan_stop_len(buf: Seq<u8>)
    ensures
        scan(buf).1.len() <= buf.len(),
    decreases buf.len(),
{
    lemma_find_marker_bounds(buf, START_OF_IMAGE, 0);
    match find_marker(buf, START_OF_IMAGE, 0) {
        None => {},
        Some(s) => {
            let rest = buf.subrange(s, buf.len() as int);
            lemma_find_marker_bounds(rest, END_OF_IMAGE, 2);
            match find_marker(rest, END_OF_IMAGE, 2) {
                None => {},
                Some(e) => {
                    lemma_scan_stop_len(rest.subrange(e + 2, rest.len() as int));
                },
            }
        },
    }
}

/// What is kept for the next chunk is never longer than what was scanned.
proof fn lemma_residue_len(buf: Seq<u8>)
    ensures
        residue(buf).len() <= buf.len(),
{
    lemma_scan_stop_len(buf);
}

/// The chunks of a stream joined in order.
pub open spec fn joined(chunks: Seq<Seq<u8>>) -> Seq<u8>
    decreases chunks.len(),
{
    if chunks.len() == 0 {
        Seq::empty()
    } else {
        joined(chunks.drop_last()) + chunks.last()
    }
}

/// A fresh splitter fed the chunks in order, each push within the size
/// limit: the frames it returned, in order, and the bytes it keeps.
pub open spec fn fed(chunks: Seq<Seq<u8>>) -> (Seq<Seq<u8>>, Seq<u8>)
    decreases chunks.len(),
{
    if chunks.len() == 0 {
        (Seq::empty(), Seq::empty())
    } else {
        let (frames, kept) = fed(chunks.drop_last());
        let buf = kept + chunks.last();
        (frames + scan(buf).0, residue(buf))
    }
}

/// However a stream is split into chunks, feeding them in order returns the
/// frames of the whole stream, in order, and keeps what the whole stream
/// leaves over.
pub proof fn lemma_any_split(chunks: Seq<Seq<u8>>)
    ensures
        fed(chunks).0 == scan(joined(chunks)).0,
        fed(chunks).1 == residue(joined(chunks)),
    decreases chunks.len(),
{
    if chunks.len() == 0 {
        assert(scan(Seq::<u8>::empty()) == (Seq::<Seq<u8>>::empty(), Seq::<u8>::empty(), false));
    } else {
        let before = chunks.drop_last();
        lemma_any_split(before);
        lemma_chunking(joined(before), chunks.last());
    }
}

/// The stream so far is never longer than the whole stream.
proof fn lemma_joined_prefix(chunks: Seq<Seq<u8>>, i: int)
    requires
        0 <= i <= chunks.len(),
    ensures
        joined(chunks.take(i)).len() + (if i < chunks.len() { chunks[i].len() } else { 0 }) <= joined(chunks).len(),
    decreases chunks.len() - i,
{
    if i < chunks.len() {
        lemma_joined_prefix(chunks, i + 1);
        assert(chunks.take(i + 1).drop_last() =~= chunks.take(i));
        assert(chunks.take(i + 1).last() == chunks[i]);
    } else {
        assert(chunks.take(i) =~= chunks);
    }
}

/// A stream of at most `MAX_FRAME_BYTES` bytes never makes the splitter
/// fail, however it is split: before each push, the kept bytes and the
/// chunk stop within the limit.
pub proof fn lemma_small_stream_never_fails(chunks: Seq<Seq<u8>>, i: int)
    requires
        joined(chunks).len() <= MAX_FRAME_BYTES,
        0 <= i < chunks.len(),
    ensures
        scan(fed(chunks.take(i)).1 + chunks[i]).1.len() <= MAX_FRAME_BYTES,
{
    lemma_any_split(chunks.take(i));
    lemma_residue_len(joined(chunks.take(i)));
    lemma_joined_prefix(chunks, i);
    lemma_scan_stop_len(fed(chunks.take(i)).1 + chunks[i]);
}

/// Splitting the stream into chunks does not change what the splitter finds:
/// the frames of `a` followed by the frames of what it keeps of `a` joined
/// with `b` are the frames of `a ++ b`, and the bytes kept afterwards are the
/// same. (Only the size limit, which is checked per push, can tell the two
/// apart.)
pub proof fn lemma_chunking(a: Seq<u8>, b: Seq<u8>)
    ensures
        scan(a).0 + scan(residue(a) + b).0 == scan(a + b).0,
        residue(residue(a) + b) == residue(a + b),
    decreases a.len(),
{
    let ab = a + b;
    lemma_find_marker_bounds(a, START_OF_IMAGE, 0);
    match find_marker(a, START_OF_IMAGE, 0) {
        None => {
            lemma_find_none_no_marker(a, START_OF_IMAGE, 0);
            let r = residue(a);
            let k = a.len() - r.len();
            assert(scan(a) == (Seq::<Seq<u8>>::empty(), a, false));
            assert(0 <= k <= a.len());
            let y = r + b;
            assert(y =~= ab.subrange(k, ab.len() as int)) by {
                if r.len() == 1 {
                    assert(a[a.len() - 1] == MARKER);
                }
            }
            assert forall|j: int| 0 <= j < k implies !marker_at(ab, j, START_OF_IMAGE) by {
                if j + 1 < a.len() {
                    assert(ab[j] == a[j] && ab[j + 1] == a[j + 1]);
                    assert(!marker_at(a, j, START_OF_IMAGE));
                } else {
                    assert(j == a.len() - 1);
                    assert(ab[j] == a[j]);
                }
            }
            lemma_find_skip_unmarked(ab, START_OF_IMAGE, 0, k);
            lemma_find_shift(ab, START_OF_IMAGE, k, 0);
            lemma_find_marker_bounds(ab, START_OF_IMAGE, 0);
            match find_marker(ab, START_OF_IMAGE, 0) {
                Some(p) => {
                    assert(find_marker(y, START_OF_IMAGE, 0) == Some(p - k));
                    assert(y.subrange(p - k, y.len() as int) =~= ab.subrange(p, ab.len() as int));
                    lemma_scan_same_start(ab, y, p, p - k);
                    assert(scan(a).0 + scan(y).0 =~= scan(ab).0);
                },
                None => {
                    assert(find_marker(y, START_OF_IMAGE, 0) is None);
                    assert(scan(ab) == (Seq::<Seq<u8>>::empty(), ab, false));
                    assert(scan(y) == (Seq::<Seq<u8>>::empty(), y, false));
                    assert(scan(a).0 + scan(y).0 =~= scan(ab).0);
                    if b.len() > 0 {
                        assert(y.last() == b.last() && ab.last() == b.last());
                    } else {
                        assert(ab =~= a);
                        assert(y =~= r);
                    }
                },
            }
        },
        Some(s) => {
            let rest = a.subrange(s, a.len() as int);
            lemma_find_prefix(a, b, START_OF_IMAGE, 0);
            let rest_b = ab.subrange(s, ab.len() as int);
            assert(rest_b =~= rest + b);
            lemma_find_marker_bounds(rest, END_OF_IMAGE, 2);
            match find_marker(rest, END_OF_IMAGE, 2) {
                None => {
                    assert(scan(a) == (Seq::<Seq<u8>>::empty(), rest, true));
                    assert(residue(a) == rest);
                    let y = rest + b;
                    assert(y[0] == MARKER && y[1] == START_OF_IMAGE);
                    assert(find_marker(y, START_OF_IMAGE, 0) == Some(0int));
                    assert(y.subrange(0, y.len() as int) =~= y);
                    lemma_scan_same_start(ab, y, s, 0);
                    assert(scan(a).0 + scan(y).0 =~= scan(ab).0);
                },
                Some(e) => {
                    let a2 = rest.subrange(e + 2, rest.len() as int);
                    let frame = rest.subrange(0, e + 2);
                    assert(scan(a) == (seq![frame] + scan(a2).0, scan(a2).1, scan(a2).2));
                    assert(residue(a) == residue(a2));
                    lemma_find_prefix(rest, b, END_OF_IMAGE, 2);
                    assert(find_marker(rest_b, END_OF_IMAGE, 2) == Some(e));
                    assert(rest_b.subrange(0, e + 2) =~= frame);
                    assert(rest_b.subrange(e + 2, rest_b.len() as int) =~= a2 + b);
                    assert(scan(ab) == (seq![frame] + scan(a2 + b).0, scan(a2 + b).1, scan(a2 + b).2));
                    lemma_chunking(a2, b);
                    assert(scan(a).0 + scan(residue(a) + b).0 =~= seq![frame] + (scan(a2).0 + scan(residue(a2) + b).0));
                },
            }
        },
    }
}

/// Splits a byte stream from the simulator's MJPEG encoder into JPEG frames.
#[derive(Default)]
pub struct MjpegFrames {
    bytes: Vec<u8>,
}

impl View for MjpegFrames {
    type V = Seq<u8>;

    closed spec fn view(&self) -> Seq<u8> {
        self.bytes@
    }
}

impl MjpegFrames {
    /// A splitter that has seen no bytes.
    pub fn new() -> (r: Self)
        ensures
            r@ == Seq::<u8>::empty(),
    {
        MjpegFrames { bytes: Vec::new() }
    }

    /// Adds a chunk of the stream and returns the frames it completes.
    ///
    /// The kept bytes and the chunk are scanned together; the frames found
    /// are returned in order and the residue is kept for the next chunk. When
    /// the splitter stops on more than `MAX_FRAME_BYTES` bytes it drops
    /// everything it holds and fails.
    pub fn push(&mut self, chunk: &[u8]) -> (r: Result<Vec<Vec<u8>>, MjpegError>)
        ensures
            ({
                let (frames, stop, started) = scan(old(self)@ + chunk@);
                if stop.len() > MAX_FRAME_BYTES {
                    &&& final(self)@ == Seq::<u8>::empty()
                    &&& r == Err::<Vec<Vec<u8>>, MjpegError>(
                        if started {
                            MjpegError::FrameTooLarge
                        } else {
                            MjpegError::NoFrameStart
                        },
                    )
                } else {
                    &&& final(self)@ == residue(old(self)@ + chunk@)
                    &&& r matches Ok(found) && found.deep_view() == frames
                }
            }),
    {
        let ghost all = self.bytes@ + chunk@;
        let mut i: usize = 0;
        while i < chunk.len()
            invariant
                i <= chunk@.len(),
                self.bytes@ =~= old(self)@ + chunk@.subrange(0, i as int),
            decreases chunk@.len() - i,
        {
            self.bytes.push(chunk[i]);
            i = i + 1;
        }
        assert(chunk@.subrange(0, chunk@.len() as int) =~= chunk@);
        let mut frames: Vec<Vec<u8>> = Vec::new();
        loop
            invariant
                all == old(self)@ + chunk@,
                frames.deep_view() + scan(self.bytes@).0 == scan(all).0,
                scan(self.bytes@).1 == scan(all).1,
                scan(self.bytes@).2 == scan(all).2,
                residue(self.bytes@) == residue(all),
            decreases self.bytes@.len(),
        {
            let ghost buf = self.bytes@;
            proof {
                lemma_find_marker_bounds(buf, START_OF_IMAGE, 0);
            }
            let start = match find_marker_exec(self.bytes.as_slice(), START_OF_IMAGE, 0) {
                Some(start) => start,
                None => {
                    assert(scan(buf) == (Seq::<Seq<u8>>::empty(), buf, false));
                    if self.bytes.len() > MAX_FRAME_BYTES {
                        self.bytes.clear();
                        return Err(MjpegError::NoFrameStart);
                    }
                    let n = self.bytes.len();
                    if n > 0 && self.bytes[n - 1] == MARKER {
                        self.bytes = vec![MARKER];
                    } else {
                        self.bytes.clear();
                    }
                    proof {
                        assert(frames.deep_view() + Seq::<Seq<u8>>::empty() =~= frames.deep_view());
                    }
                    return Ok(frames);
                },
            };
            assert(find_marker(buf, START_OF_IMAGE, 0) == Some(start as int));
            let rest = self.bytes.split_off(start);
            self.bytes = rest;
            let ghost rest_view = self.bytes@;
            assert(rest_view == buf.subrange(start as int, buf.len() as int));
            assert(0 <= start < buf.len());
            proof {
                lemma_find_marker_bounds(rest_view, END_OF_IMAGE, 2);
            }
            let end = match find_marker_exec(self.bytes.as_slice(), END_OF_IMAGE, 2) {
                Some(end) => end,
                None => {
                    assert(find_marker(rest_view, END_OF_IMAGE, 2) is None);
                    assert(scan(buf) == (Seq::<Seq<u8>>::empty(), rest_view, true));
                    if self.bytes.len() > MAX_FRAME_BYTES {
                        self.bytes.clear();
                        return Err(MjpegError::FrameTooLarge);
                    }
                    proof {
                        assert(frames.deep_view() + Seq::<Seq<u8>>::empty() =~= frames.deep_view());
                    }
                    return Ok(frames);
                },
            };
            assert(find_marker(rest_view, END_OF_IMAGE, 2) == Some(end as int));
            let mut frame = self.bytes.split_off(0);
            assert(frame@ == rest_view);
            assert(end + 2 <= frame@.len());
            let frame_len = frame.len();
            assert(end + 2 <= frame_len);
            let tail = frame.split_off(end + 2);
            self.bytes = tail;
            proof {
                let next = scan(rest_view.subrange(end + 2, rest_view.len() as int));
                assert(scan(buf) == (seq![rest_view.subrange(0, end + 2)] + next.0, next.1, next.2));
                assert(frame@ == rest_view.subrange(0, end + 2));
            }
            let ghost before = frames.deep_view();
            let ghost frame_view = frame.deep_view();
            assert(frame_view =~= frame@);
            frames.push(frame);
            proof {
                let next = scan(self.bytes@);
                assert(frames.deep_view() =~= before.push(frame_view));
                assert(before.push(frame_view) + next.0 =~= before + (seq![frame_view] + next.0));
            }
        }
    }
}

/// The bytes of `"GET /"`.
pub open spec fn get_prefix() -> Seq<u8> {
    seq![71u8, 69u8, 84u8, 32u8, 47u8]
}

/// The bytes of `" HTTP/1.x\r\n"` for the given minor version digit.
pub open spec fn http_suffix(minor: u8) -> Seq<u8> {
    seq![32u8, 72u8, 84u8, 84u8, 80u8, 47u8, 49u8, 46u8, minor, 13u8, 10u8]
}

/// The request line a client must send to be served the stream.
pub open spec fn capability_line(capability: &str, minor: u8) -> Seq<u8> {
    get_prefix() + capability.spec_bytes() + http_suffix(minor)
}

/// Whether a request starts with `GET /<capability> HTTP/1.1` or `HTTP/1.0`.
pub open spec fn has_capability(request: Seq<u8>, capability: &str) -> bool {
    seq_starts_with(request, capability_line(capability, 49u8))
        || seq_starts_with(request, capability_line(capability, 48u8))
}

/// Whether `s` holds `p` at position `at`.
fn bytes_at(s: &[u8], at: usize, p: &[u8]) -> (r: bool)
    ensures
        r == (at + p@.len() <= s@.len() && s@.subrange(at as int, at + p@.len()) =~= p@),
{
    if at > s.len() || p.len() > s.len() - at {
        return false;
    }
    let mut i: usize = 0;
    while i < p.len()
        invariant
            at + p@.len() <= s@.len(),
            s@.len() == s.len(),
            i <= p@.len(),
            forall|j: int| 0 <= j < i ==> s@[at + j] == p@[j],
        decreases p@.len() - i,
    {
        if s[at + i] != p[i] {
            assert(s@.subrange(at as int, at + p@.len())[i as int] != p@[i as int]);
            return false;
        }
        i = i + 1;
    }
    assert(s@.subrange(at as int, at + p@.len()) =~= p@);
    true
}

/// Whether a client's request line carries the stream's capability.
pub fn request_has_capability(request: &[u8], capability: &str) -> (r: bool)
    ensures
        r == has_capability(request@, capability),
{
    let cap = capability.as_bytes();
    let get: [u8; 5] = [71, 69, 84, 32, 47];
    let http11: [u8; 11] = [32, 72, 84, 84, 80, 47, 49, 46, 49, 13, 10];
    let http10: [u8; 11] = [32, 72, 84, 84, 80, 47, 49, 46, 48, 13, 10];
    assert(get@ =~= get_prefix());
    assert(http11@ =~= http_suffix(49u8));
    assert(http10@ =~= http_suffix(48u8));
    let head = bytes_at(request, 0, &get) && bytes_at(request, 5, cap);
    let r = if !head {
        false
    } else if cap.len() > request.len() {
        false
    } else {
        let after = 5 + cap.len();
        bytes_at(request, after, &http11) || bytes_at(request, after, &http10)
    };
    proof {
        let req = request@;
        let n: int = cap@.len() as int;
        assert forall|minor: u8| #[trigger] seq_starts_with(req, capability_line(capability, minor)) <==> (
            req.len() >= 5 + n + 11
            && req.subrange(0, 5) =~= get_prefix()
            && req.subrange(5, 5 + n) =~= cap@
            && req.subrange(5 + n, 5 + n + 11) =~= http_suffix(minor)
        ) by {
            let line = capability_line(capability, minor);
            assert(line.len() == 5 + n + 11);
            if seq_starts_with(req, line) {
                assert(req.subrange(0, 5) =~= line.subrange(0, 5));
                assert(req.subrange(5, 5 + n) =~= line.subrange(5, 5 + n));
                assert(req.subrange(5 + n, 5 + n + 11) =~= line.subrange(5 + n, line.len() as int));
            }
            if req.len() >= 5 + n + 11 && req.subrange(0, 5) =~= get_prefix()
                && req.subrange(5, 5 + n) =~= cap@
                && req.subrange(5 + n, 5 + n + 11) =~= http_suffix(minor) {
                assert forall|j: int| 0 <= j < line.len() implies req[j] == line[j] by {
                    if j < 5 {
                        assert(req.subrange(0, 5)[j] == req[j]);
                    } else if j < 5 + n {
                        assert(req.subrange(5, 5 + n)[j - 5] == req[j]);
                    } else {
                        assert(req.subrange(5 + n, 5 + n + 11)[j - 5 - n] == req[j]);
                    }
                }
                assert(req.subrange(0, line.len() as int) =~= line);
            }
        }
    }
    r
}

/// A blank line, `\r\n\r\n`, which ends a request's header.
pub open spec fn blank_line() -> Seq<u8> {
    seq![13u8, 10u8, 13u8, 10u8]
}

/// `s` holds a blank line, which ends a request's header.
pub open spec fn has_header_end(s: Seq<u8>) -> bool {
    seq_contains_seq(s, blank_line())
}

/// Whether the bytes read so far hold the end of the request header.
pub fn request_header_complete(request: &[u8]) -> (r: bool)
    ensures
        r == has_header_end(request@),
{
    let blank: [u8; 4] = [13, 10, 13, 10];
    assert(blank@ =~= blank_line());
    if request.len() < 4 {
        assert forall|i: int| !occurs_at(request@, blank_line(), i) by {}
        return false;
    }
    let last = request.len() - 4;
    let mut at: usize = 0;
    while at < last
        invariant
            last + 4 == request@.len(),
            at <= last,
            blank@ == blank_line(),
            forall|i: int| 0 <= i < at ==> !occurs_at(request@, blank_line(), i),
        decreases last - at,
    {
        if bytes_at(request, at, &blank) {
            assert(occurs_at(request@, blank_line(), at as int));
            return true;
        }
        at = at + 1;
    }
    if bytes_at(request, last, &blank) {
        assert(occurs_at(request@, blank_line(), last as int));
        return true;
    }
    assert forall|i: int| !occurs_at(request@, blank_line(), i) by {
        if 0 <= i && i + 4 <= request@.len() {
            assert(i <= last);
        }
    }
    false
}

/// The generation after `g`: one more, skipping zero on wrap-around, so that
/// a client that has seen nothing (generation zero) always sees a change.
pub open spec fn next_generation(g: u64) -> u64 {
    if g == u64::MAX {
        1
    } else {
        (g + 1) as u64
    }
}

/// What a client waiting for frames should do next.
#[derive(Clone, Copy, Debug, PartialEq, Eq, Structural)]
pub enum FramePoll {
    /// Nothing newer than the client's generation yet: wait.
    Wait,
    /// The stream has ended (closed, or nothing to hand out).
    End,
    /// The latest frame, at this generation, is ready.
    Frame(u64),
}

/// The latest encoded frame of a stream, shared by all its clients.
pub struct FrameExchange<F> {
    latest: Option<F>,
    generation: u64,
    closed: bool,
}

impl<F> View for FrameExchange<F> {
    type V = (Option<F>, u64, bool);

    closed spec fn view(&self) -> (Option<F>, u64, bool) {
        (self.latest, self.generation, self.closed)
    }
}

/// What `poll(seen)` answers in the state `s`.
pub open spec fn poll_result<F>(s: (Option<F>, u64, bool), seen: u64) -> FramePoll {
    if s.2 {
        FramePoll::End
    } else if s.1 == seen {
        FramePoll::Wait
    } else if s.0 is Some {
        FramePoll::Frame(s.1)
    } else {
        FramePoll::End
    }
}

impl<F> FrameExchange<F> {
    /// An open exchange holding no frame, at generation zero.
    pub fn new() -> (r: Self)
        ensures
            r@ == (None::<F>, 0u64, false),
    {
        FrameExchange { latest: None, generation: 0, closed: false }
    }

    /// Publishes a new frame; an exchange that is closed ignores it.
    pub fn replace(&mut self, frame: F)
        ensures
            old(self)@.2 ==> final(self)@ == old(self)@,
            !old(self)@.2 ==> final(self)@ == (Some(frame), next_generation(old(self)@.1), false),
    {
        if self.closed {
            return;
        }
        self.latest = Some(frame);
        let bumped = self.generation.wrapping_add(1);
        self.generation = if bumped < 1 {
            1
        } else {
            bumped
        };
    }

    /// Ends the stream for every client.
    pub fn close(&mut self)
        ensures
            final(self)@ == (old(self)@.0, old(self)@.1, true),
    {
        self.closed = true;
    }

    /// What a client that has seen generation `seen` should do next.
    pub fn poll(&self, seen: u64) -> (r: FramePoll)
        ensures
            r == poll_result(self@, seen),
    {
        if self.closed {
            FramePoll::End
        } else if self.generation == seen {
            FramePoll::Wait
        } else if self.latest.is_some() {
            FramePoll::Frame(self.generation)
        } else {
            FramePoll::End
        }
    }

    /// The latest frame, if one was published.
    pub fn latest(&self) -> (r: Option<&F>)
        ensures
            match self@.0 {
                Some(f) => r == Some(&f),
                None => r is None,
            },
    {
        match &self.latest {
            Some(f) => Some(f),
            None => None,
        }
    }
}

/// A frame published on an open exchange wakes every client waiting on the
/// previous generation, and no publication ever lands on generation zero.
pub proof fn lemma_replace_wakes_waiters<F>(s: (Option<F>, u64, bool), frame: F)
    requires
        !s.2,
    ensures
        next_generation(s.1) != s.1,
        next_generation(s.1) != 0,
        poll_result((Some(frame), next_generation(s.1), false), s.1) == FramePoll::Frame(
            next_generation(s.1),
        ),
        poll_result((Some(frame), next_generation(s.1), false), 0) == FramePoll::Frame(
            next_generation(s.1),
        ),
{
}

/// Once closed, an exchange answers every client with the end of the stream,
/// whatever is published afterwards.
pub proof fn lemma_closed_stays_closed<F>(s: (Option<F>, u64, bool), seen: u64)
    requires
        s.2,
    ensures
        poll_result(s, seen) == FramePoll::End,
{
}

/// A fresh capability for a stream's URL path: one random UUID, 32
/// lowercase hexadecimal digits.
pub fn new_capability() -> (r: String)
    ensures
        r@.len() == 32,
        forall|i: int| 0 <= i < 32 ==> crate::mcp::session::is_lower_hex(#[trigger] r@[i]),
{
    crate::mcp::session::new_uuid_simple()
}

/// The response header of the MJPEG stream served to the page.
pub const STREAM_HEADER: &'static str = "HTTP/1.1 200 OK\r\nContent-Type: multipart/x-mixed-replace; boundary=vmuxframe\r\nCache-Control: no-store\r\n\r\n";

/// The part header before a frame of `len` bytes.
pub fn frame_header(len: usize) -> (r: String)
    ensures
        r@ == "--vmuxframe\r\nContent-Type: image/jpeg\r\nContent-Length: "@ + crate::text::radix_digits(len as nat, 10)
            + "\r\n\r\n"@,
{
    let mut r = "--vmuxframe\r\nContent-Type: image/jpeg\r\nContent-Length: ".to_owned();
    let digits = crate::text::radix(len as u64, 10);
    crate::text::push_str(&mut r, digits.as_str());
    crate::text::push_str(&mut r, "\r\n\r\n");
    r
}

/// The `axe` call that streams the device's screen as MJPEG: 30 frames a
/// second, quality 95, at half scale.
pub fn stream_invocation(axe: &str, udid: &str) -> (r: crate::simulator::command::Invocation)
    ensures
        r.runs(
            axe@,
            seq![
                "stream-video"@,
                "--udid"@,
                udid@,
                "--format"@,
                "mjpeg"@,
                "--fps"@,
                "30"@,
                "--quality"@,
                "95"@,
                "--scale"@,
                "0.5"@,
            ],
        ),
{
    let mut r = crate::simulator::command::Invocation::new(axe);
    r.arg("stream-video");
    r.arg("--udid");
    r.arg(udid);
    r.arg("--format");
    r.arg("mjpeg");
    r.arg("--fps");
    r.arg("30");
    r.arg("--quality");
    r.arg("95");
    r.arg("--scale");
    r.arg("0.5");
    assert(crate::simulator::command::arg_views(r.args@) =~= seq![
        "stream-video"@,
        "--udid"@,
        udid@,
        "--format"@,
        "mjpeg"@,
        "--fps"@,
        "30"@,
        "--quality"@,
        "95"@,
        "--scale"@,
        "0.5"@,
    ]);
    r
}

} // verus!
