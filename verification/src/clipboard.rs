//! Recognising an image among the files on the pasteboard by its path.
use vstd::prelude::*;
use crate::text::{ascii_lower, chars_eq, chars_of, lower_ascii};

verus! {

/// The parts of a path between slashes, after the part `cur` begun before
/// it; empty parts are kept.
pub open spec fn parts_after(s: Seq<char>, cur: Seq<char>) -> Seq<Seq<char>>
    decreases s.len(),
{
    if s.len() == 0 {
        seq![cur]
    } else if s[0] == '/' {
        seq![cur] + parts_after(s.drop_first(), Seq::empty())
    } else {
        parts_after(s.drop_first(), cur.push(s[0]))
    }
}

/// The last part that names something, as `Path::file_name` finds it:
/// empty parts and `.` are skipped; `..` names nothing.
pub open spec fn last_named(parts: Seq<Seq<char>>) -> Option<Seq<char>>
    decreases parts.len(),
{
    if parts.len() == 0 {
        None
    } else {
        let p = parts.last();
        if p.len() == 0 || p == "."@ {
            last_named(parts.drop_last())
        } else if p == ".."@ {
            None
        } else {
            Some(p)
        }
    }
}

/// The file name of a path.
pub open spec fn file_name(path: Seq<char>) -> Option<Seq<char>> {
    last_named(parts_after(path, Seq::empty()))
}

/// The extension of a file name, as `Path::extension` gives it: after its
/// last dot, unless that dot starts the name; none without a dot.
pub open spec fn extension(name: Seq<char>) -> Option<Seq<char>> {
    if exists|k: int| 0 <= k < name.len() && name[k] == '.' {
        let k = choose|k: int| 0 <= k < name.len() && name[k] == '.' && forall|j: int| k < j < name.len() ==> name[j] != '.';
        if k == 0 {
            None
        } else {
            Some(name.subrange(k + 1, name.len() as int))
        }
    } else {
        None
    }
}

/// The extensions of the image files recognised, in lowercase.
pub open spec fn image_extensions() -> Seq<Seq<char>> {
    seq!["png"@, "jpg"@, "jpeg"@, "gif"@, "webp"@, "tiff"@, "tif"@, "bmp"@, "heic"@]
}

/// Whether a path names an image file: its extension, in ASCII lowercase,
/// is one of the image extensions.
pub open spec fn looks_like_image(path: Seq<char>) -> bool {
    match file_name(path) {
        None => false,
        Some(name) => match extension(name) {
            None => false,
            Some(ext) => image_extensions().contains(ascii_lower(ext)),
        },
    }
}

/// The parts of a path continue the parts found before a point.
proof fn lemma_parts_step(s: Seq<char>, i: int, found: Seq<Seq<char>>, cur: Seq<char>)
    requires
        0 <= i < s.len(),
        parts_after(s, Seq::empty()) == found + parts_after(s.subrange(i, s.len() as int), cur),
    ensures
        s[i] == '/' ==> parts_after(s, Seq::empty()) == found.push(cur) + parts_after(s.subrange(i + 1, s.len() as int), Seq::empty()),
        s[i] != '/' ==> parts_after(s, Seq::empty()) == found + parts_after(s.subrange(i + 1, s.len() as int), cur.push(s[i])),
{
    let t = s.subrange(i, s.len() as int);
    assert(t.drop_first() =~= s.subrange(i + 1, s.len() as int));
    assert(t[0] == s[i]);
    if s[i] == '/' {
        assert(found + (seq![cur] + parts_after(t.drop_first(), Seq::empty())) =~= found.push(cur) + parts_after(t.drop_first(), Seq::empty()));
    }
}

/// The file name of a path, as characters.
fn file_name_of(path: &str) -> (r: Option<Vec<char>>)
    ensures
        match file_name(path@) {
            None => r is None,
            Some(n) => r matches Some(v) && v@ == n,
        },
{
    let cs = chars_of(path);
    let mut parts: Vec<Vec<char>> = Vec::new();
    let mut cur: Vec<char> = Vec::new();
    let mut i: usize = 0;
    assert(cs@.subrange(0, cs@.len() as int) =~= cs@);
    assert(Seq::<Seq<char>>::empty() + parts_after(cs@, Seq::empty()) =~= parts_after(cs@, Seq::empty()));
    while i < cs.len()
        invariant
            i <= cs@.len(),
            cs@ == path@,
            parts_after(cs@, Seq::empty()) == crate::text::views(parts@) + parts_after(cs@.subrange(i as int, cs@.len() as int), cur@),
        decreases cs@.len() - i,
    {
        proof {
            lemma_parts_step(cs@, i as int, crate::text::views(parts@), cur@);
        }
        if cs[i] == '/' {
            let ghost before = parts@;
            let ghost word = cur@;
            parts.push(cur);
            assert(crate::text::views(parts@) =~= crate::text::views(before).push(word));
            cur = Vec::new();
        } else {
            cur.push(cs[i]);
        }
        i = i + 1;
    }
    let ghost before = parts@;
    let ghost word = cur@;
    parts.push(cur);
    proof {
        assert(cs@.subrange(i as int, cs@.len() as int) =~= Seq::<char>::empty());
        assert(crate::text::views(parts@) =~= crate::text::views(before).push(word));
        assert(parts_after(cs@, Seq::empty()) =~= crate::text::views(parts@));
    }
    let ghost all = crate::text::views(parts@);
    let dot = chars_of(".");
    let dots = chars_of("..");
    proof {
        reveal_strlit(".");
        reveal_strlit("..");
    }
    let mut n = parts.len();
    assert(all.subrange(0, n as int) =~= all);
    while n > 0
        invariant
            n <= parts@.len(),
            all == crate::text::views(parts@),
            dot@ == "."@,
            dots@ == ".."@,
            file_name(path@) == last_named(all),
            last_named(all) == last_named(all.subrange(0, n as int)),
        decreases n,
    {
        let p = &parts[n - 1];
        proof {
            assert(all.subrange(0, n as int).last() == p@);
            assert(all.subrange(0, n as int).drop_last() =~= all.subrange(0, n - 1));
        }
        if p.len() == 0 || chars_eq(p.as_slice(), dot.as_slice()) {
            n = n - 1;
        } else if chars_eq(p.as_slice(), dots.as_slice()) {
            return None;
        } else {
            let mut v: Vec<char> = Vec::new();
            let mut j: usize = 0;
            while j < p.len()
                invariant
                    j <= p@.len(),
                    v@ =~= p@.subrange(0, j as int),
                decreases p@.len() - j,
            {
                v.push(p[j]);
                j = j + 1;
            }
            assert(p@.subrange(0, p@.len() as int) =~= p@);
            return Some(v);
        }
    }
    None
}

/// The extension of a file name.
fn extension_of(name: &[char]) -> (r: Option<Vec<char>>)
    ensures
        match extension(name@) {
            None => r is None,
            Some(e) => r matches Some(v) && v@ == e,
        },
{
    let mut k = name.len();
    while k > 0 && name[k - 1] != '.'
        invariant
            k <= name@.len(),
            forall|j: int| k <= j < name@.len() ==> name@[j] != '.',
        decreases k,
    {
        k = k - 1;
    }
    if k == 0 {
        assert(!exists|m: int| 0 <= m < name@.len() && name@[m] == '.');
        return None;
    }
    let d = k - 1;
    proof {
        let s = name@;
        let m = choose|m: int| 0 <= m < s.len() && s[m] == '.' && forall|j: int| m < j < s.len() ==> s[j] != '.';
        assert(0 <= d < s.len() && s[d as int] == '.' && forall|j: int| d < j < s.len() ==> s[j] != '.');
        if m < d {
            assert(s[d as int] != '.');
        } else if m > d {
            assert(s[m] != '.');
        }
    }
    if d == 0 {
        return None;
    }
    let mut v: Vec<char> = Vec::new();
    let mut j = k;
    while j < name.len()
        invariant
            k <= j <= name@.len(),
            v@ =~= name@.subrange(k as int, j as int),
        decreases name@.len() - j,
    {
        v.push(name[j]);
        j = j + 1;
    }
    Some(v)
}

/// The extension of a path, as `Path::extension` gives it: that of its
/// file name, none without a file name.
pub open spec fn path_extension(path: Seq<char>) -> Option<Seq<char>> {
    match file_name(path) {
        None => None,
        Some(name) => extension(name),
    }
}

/// The extension of a path.
pub fn path_extension_of(path: &str) -> (r: Option<Vec<char>>)
    ensures
        match path_extension(path@) {
            None => r is None,
            Some(e) => r matches Some(v) && v@ == e,
        },
{
    match file_name_of(path) {
        None => None,
        Some(name) => extension_of(name.as_slice()),
    }
}

/// Whether a path names an image file, judged by its extension in any case.
pub fn path_looks_like_image(path: &str) -> (r: bool)
    ensures
        r == looks_like_image(path@),
{
    let name = match file_name_of(path) {
        Some(n) => n,
        None => return false,
    };
    let ext = match extension_of(name.as_slice()) {
        Some(e) => e,
        None => return false,
    };
    let lowered = lower_ascii(ext.as_slice());
    let known = ["png", "jpg", "jpeg", "gif", "webp", "tiff", "tif", "bmp", "heic"];
    let ghost list = image_extensions();
    let mut i: usize = 0;
    while i < 9
        invariant
            i <= 9,
            list == image_extensions(),
            known@.map_values(|s: &str| s@) == list,
            file_name(path@) == Some(name@),
            extension(name@) == Some(ext@),
            lowered@ == ascii_lower(ext@),
            forall|j: int| 0 <= j < i ==> list[j] != lowered@,
        decreases 9 - i,
    {
        let candidate = chars_of(known[i]);
        assert(candidate@ == list[i as int]);
        if chars_eq(candidate.as_slice(), lowered.as_slice()) {
            assert(list[i as int] == lowered@);
            return true;
        }
        i = i + 1;
    }
    false
}

} // verus!
