//! The history page's host side: the snapshot it pushes, where the engine
//! keeps its cache, and how the bundled page files are addressed.
use vstd::prelude::*;
use crate::simulator::hid::{join_path, joined};
use crate::text::{chars_of, push_char, push_str, string_of, str_eq};

verus! {

/// The channel the history snapshot is pushed on.
pub const HOST_HISTORY_CHANNEL: &'static str = "vmux_history_poc_history";

/// The directory the page's web bundle is built into.
pub const DIST_DIR_NAME: &'static str = "dist";

/// Texts joined with a comma and a space.
pub open spec fn comma_joined(items: Seq<Seq<char>>) -> Seq<char>
    decreases items.len(),
{
    if items.len() == 0 {
        Seq::empty()
    } else if items.len() == 1 {
        items[0]
    } else {
        comma_joined(items.drop_last()) + ", "@ + items.last()
    }
}

/// The `url` field of the history snapshot: the visited URLs joined with
/// `", "`.
pub fn history_summary(urls: &[String]) -> (r: String)
    ensures
        r@ == comma_joined(urls@.map_values(|u: String| u@)),
{
    let ghost all = urls@.map_values(|u: String| u@);
    let mut r = String::new();
    let mut i: usize = 0;
    while i < urls.len()
        invariant
            i <= urls@.len(),
            all == urls@.map_values(|u: String| u@),
            r@ == comma_joined(all.subrange(0, i as int)),
        decreases urls@.len() - i,
    {
        proof {
            assert(all.subrange(0, i + 1).drop_last() =~= all.subrange(0, i as int));
            if i == 0 {
                assert(all.subrange(0, 1) =~= seq![all[0]]);
            }
        }
        if i > 0 {
            push_str(&mut r, ", ");
        }
        push_str(&mut r, urls[i].as_str());
        i = i + 1;
    }
    assert(all.subrange(0, all.len() as int) =~= all);
    r
}

/// Where the engine keeps its cache: under the user's cache directory
/// (`Library/Caches` on macOS, `.cache` elsewhere) when there is a home
/// directory, else in the temporary directory (when it is text).
pub open spec fn cache_root(home: Option<Seq<char>>, macos: bool, temp: Option<Seq<char>>) -> Option<Seq<char>> {
    match home {
        Some(h) => Some(joined(
            joined(h, if macos { "Library/Caches/vmux_history_poc"@ } else { ".cache/vmux_history_poc"@ }),
            "cef"@,
        )),
        None => match temp {
            Some(t) => Some(t + "/vmux_history_poc_cef"@),
            None => None,
        },
    }
}

/// An optional text as a spec value.
pub open spec fn text_of(s: Option<&str>) -> Option<Seq<char>> {
    match s {
        Some(x) => Some(x@),
        None => None,
    }
}

/// Where the engine keeps its cache.
pub fn cef_root_cache_path(home: Option<&str>, macos: bool, temp: Option<&str>) -> (r: Option<String>)
    ensures
        match r {
            Some(s) => cache_root(text_of(home), macos, text_of(temp)) == Some(s@),
            None => cache_root(text_of(home), macos, text_of(temp)) is None,
        },
{
    match home {
        Some(h) => {
            let base = join_path(h, if macos { "Library/Caches/vmux_history_poc" } else { ".cache/vmux_history_poc" });
            Some(join_path(base.as_str(), "cef"))
        },
        None => match temp {
            Some(t) => {
                let mut r = t.to_owned();
                push_str(&mut r, "/vmux_history_poc_cef");
                Some(r)
            },
            None => None,
        },
    }
}

/// A bundle file's path with backslashes made slashes.
pub open spec fn forward_slashes(s: Seq<char>) -> Seq<char> {
    s.map_values(|c: char| if c == '\\' { '/' } else { c })
}

/// The path a bundled file is served under: its path in the bundle with
/// forward slashes, except that `index.html` is the default document.
pub fn embedded_path(relative: &str, default_document: &str) -> (r: String)
    ensures
        r@ == if forward_slashes(relative@) == "index.html"@ { default_document@ } else { forward_slashes(relative@) },
{
    let cs = chars_of(relative);
    let mut out: Vec<char> = Vec::new();
    let mut i: usize = 0;
    while i < cs.len()
        invariant
            i <= cs@.len(),
            cs@ == relative@,
            out@ =~= forward_slashes(cs@.subrange(0, i as int)),
        decreases cs@.len() - i,
    {
        out.push(if cs[i] == '\\' { '/' } else { cs[i] });
        i = i + 1;
    }
    assert(cs@.subrange(0, cs@.len() as int) =~= cs@);
    let text = string_of(out.as_slice());
    if str_eq(text.as_str(), "index.html") {
        default_document.to_owned()
    } else {
        text
    }
}

} // verus!
