//! How agents and profiles are shown: names made from URL segments,
//! avatar initials and colours.
use vstd::prelude::*;
use crate::layout::{ui_view, UiText};
use crate::text::{chars_of, push_str};

verus! {

/// The Unicode uppercase of a character, as `char::to_uppercase` gives it
/// (one or more characters).
pub uninterp spec fn uppercase(c: char) -> Seq<char>;

/// Uppercases a character with `char::to_uppercase`.
#[verifier::external_body]
fn to_uppercase(c: char) -> (r: String)
    ensures
        r@ == uppercase(c),
{
    c.to_uppercase().collect()
}

/// A word with its first character uppercased.
pub open spec fn capitalized(word: Seq<char>) -> Seq<char> {
    if word.len() == 0 { word } else { uppercase(word[0]) + word.drop_first() }
}

/// The parts of `s` between dashes, after the part `cur` begun before it;
/// empty parts are dropped.
pub open spec fn dash_parts_after(s: Seq<char>, cur: Seq<char>) -> Seq<Seq<char>>
    decreases s.len(),
{
    let done = if cur.len() > 0 { seq![cur] } else { Seq::<Seq<char>>::empty() };
    if s.len() == 0 {
        done
    } else if s[0] == '-' {
        done + dash_parts_after(s.drop_first(), Seq::empty())
    } else {
        dash_parts_after(s.drop_first(), cur.push(s[0]))
    }
}

/// Words joined by single spaces.
pub open spec fn spaced(words: Seq<Seq<char>>) -> Seq<char>
    decreases words.len(),
{
    if words.len() == 0 {
        Seq::empty()
    } else if words.len() == 1 {
        words[0]
    } else {
        spaced(words.drop_last()) + seq![' '] + words.last()
    }
}

/// The display name of an agent's URL segment: its dash-separated parts,
/// each capitalised, joined by spaces (`code-agent` is `Code Agent`).
pub open spec fn agent_name(segment: Seq<char>) -> Seq<char> {
    spaced(dash_parts_after(segment, Seq::empty()).map_values(|w: Seq<char>| capitalized(w)))
}

/// The agent being prepared: its URL segment (`agent` when the URL names
/// none) and its display name.
#[derive(Clone, Debug, PartialEq, Eq)]
pub struct PreparingAgentIdentity {
    pub segment: String,
    pub name: String,
}

/// The parts continue the parts found before a point.
proof fn lemma_dash_step(s: Seq<char>, i: int, found: Seq<Seq<char>>, cur: Seq<char>)
    requires
        0 <= i < s.len(),
        dash_parts_after(s, Seq::empty()) == found + dash_parts_after(s.subrange(i, s.len() as int), cur),
    ensures
        s[i] == '-' ==> dash_parts_after(s, Seq::empty()) == (if cur.len() > 0 { found.push(cur) } else { found })
            + dash_parts_after(s.subrange(i + 1, s.len() as int), Seq::empty()),
        s[i] != '-' ==> dash_parts_after(s, Seq::empty()) == found + dash_parts_after(s.subrange(i + 1, s.len() as int), cur.push(s[i])),
{
    let t = s.subrange(i, s.len() as int);
    assert(t.drop_first() =~= s.subrange(i + 1, s.len() as int));
    assert(t[0] == s[i]);
    if s[i] == '-' {
        let done = if cur.len() > 0 { seq![cur] } else { Seq::<Seq<char>>::empty() };
        let f2 = if cur.len() > 0 { found.push(cur) } else { found };
        assert(found + (done + dash_parts_after(t.drop_first(), Seq::empty())) =~= f2 + dash_parts_after(t.drop_first(), Seq::empty()));
    }
}

/// A word with its first character uppercased.
fn capitalize(word: &Vec<char>) -> (r: String)
    ensures
        r@ == capitalized(word@),
{
    if word.len() == 0 {
        return String::new();
    }
    let mut r = to_uppercase(word[0]);
    let mut i: usize = 1;
    let ghost head = r@;
    while i < word.len()
        invariant
            1 <= i <= word@.len(),
            head == uppercase(word@[0]),
            r@ =~= head + word@.subrange(1, i as int),
        decreases word@.len() - i,
    {
        crate::text::push_char(&mut r, word[i]);
        i = i + 1;
    }
    assert(word@.drop_first() =~= word@.subrange(1, word@.len() as int));
    r
}

impl PreparingAgentIdentity {
    /// The identity of the agent a URL segment names.
    pub fn of(segment: Option<&str>) -> (r: Self)
        ensures
            r.segment@ == match segment {
                Some(s) => s@,
                None => "agent"@,
            },
            r.name@ == agent_name(r.segment@),
    {
        let segment = match segment {
            Some(s) => s.to_owned(),
            None => "agent".to_owned(),
        };
        let cs = chars_of(segment.as_str());
        let mut parts: Vec<Vec<char>> = Vec::new();
        let mut cur: Vec<char> = Vec::new();
        let mut i: usize = 0;
        assert(cs@.subrange(0, cs@.len() as int) =~= cs@);
        assert(Seq::<Seq<char>>::empty() + dash_parts_after(cs@, Seq::empty()) =~= dash_parts_after(cs@, Seq::empty()));
        while i < cs.len()
            invariant
                i <= cs@.len(),
                dash_parts_after(cs@, Seq::empty()) == crate::text::views(parts@) + dash_parts_after(
                    cs@.subrange(i as int, cs@.len() as int),
                    cur@,
                ),
            decreases cs@.len() - i,
        {
            proof {
                lemma_dash_step(cs@, i as int, crate::text::views(parts@), cur@);
            }
            if cs[i] == '-' {
                if cur.len() > 0 {
                    let ghost before = parts@;
                    let ghost word = cur@;
                    parts.push(cur);
                    assert(crate::text::views(parts@) =~= crate::text::views(before).push(word));
                }
                cur = Vec::new();
            } else {
                cur.push(cs[i]);
            }
            i = i + 1;
        }
        if cur.len() > 0 {
            let ghost before = parts@;
            let ghost word = cur@;
            parts.push(cur);
            assert(crate::text::views(parts@) =~= crate::text::views(before).push(word));
        }
        proof {
            assert(cs@.subrange(i as int, cs@.len() as int) =~= Seq::<char>::empty());
        }
        let ghost words = crate::text::views(parts@);
        assert(words =~= dash_parts_after(cs@, Seq::empty()));
        let ghost caps = words.map_values(|w: Seq<char>| capitalized(w));
        let mut name = String::new();
        let mut k: usize = 0;
        while k < parts.len()
            invariant
                k <= parts@.len(),
                words == crate::text::views(parts@),
                caps == words.map_values(|w: Seq<char>| capitalized(w)),
                name@ == spaced(caps.subrange(0, k as int)),
            decreases parts@.len() - k,
        {
            let c = capitalize(&parts[k]);
            proof {
                assert(caps.subrange(0, k + 1).drop_last() =~= caps.subrange(0, k as int));
                assert(caps.subrange(0, k + 1).last() == c@);
                if k == 0 {
                    assert(caps.subrange(0, 1) =~= seq![c@]);
                }
            }
            if k > 0 {
                crate::text::push_char(&mut name, ' ');
            }
            push_str(&mut name, c.as_str());
            k = k + 1;
        }
        assert(caps.subrange(0, caps.len() as int) =~= caps);
        PreparingAgentIdentity { segment, name }
    }
}

/// The first character of a name, uppercased; nothing for an empty name.
pub fn initial(name: &str) -> (r: String)
    ensures
        r@ == if name@.len() == 0 { Seq::empty() } else { uppercase(name@[0]) },
{
    let cs = chars_of(name);
    if cs.len() == 0 {
        String::new()
    } else {
        to_uppercase(cs[0])
    }
}

/// A profile's avatar letter: the first character of its name, or `P`,
/// uppercased.
pub fn profile_initial(name: &str) -> (r: String)
    ensures
        r@ == uppercase(if name@.len() == 0 { 'P' } else { name@[0] }),
{
    let cs = chars_of(name);
    if cs.len() == 0 {
        to_uppercase('P')
    } else {
        to_uppercase(cs[0])
    }
}

/// The background of an agent's avatar: its accent colour, or indigo.
pub fn avatar_background(accent: &str) -> (r: String)
    ensures
        r@ == if accent@.len() == 0 { "#6366f1"@ } else { accent@ },
{
    if accent.unicode_len() == 0 {
        "#6366f1".to_owned()
    } else {
        accent.to_owned()
    }
}

/// The line under a team member's name: "you" for the user; the member's
/// own title where it says more than the name (it is not empty, not the
/// name, and not the default `<name> (…)` title); "agent" for an agent
/// with no session; nothing otherwise.
pub open spec fn member_subtitle(is_user: bool, name: Seq<char>, title: Seq<char>, sid: Seq<char>) -> Option<(bool, Seq<char>)> {
    if is_user {
        Some((true, "team-you"@))
    } else if title.len() > 0 && title != name && !crate::text::seq_starts_with(title, name + " ("@) {
        Some((false, title))
    } else if sid.len() == 0 {
        Some((true, "team-agent"@))
    } else {
        None
    }
}

/// The subtitle of a member row.
pub fn team_member_subtitle(is_user: bool, name: &str, title: &str, sid: &str) -> (r: Option<UiText>)
    ensures
        match r {
            Some(t) => member_subtitle(is_user, name@, title@, sid@) == Some(ui_view(t)),
            None => member_subtitle(is_user, name@, title@, sid@) is None,
        },
{
    if is_user {
        return Some(UiText::Message("team-you"));
    }
    let mut default_title = name.to_owned();
    push_str(&mut default_title, " (");
    let t = chars_of(title);
    let d = chars_of(default_title.as_str());
    let n = chars_of(name);
    if t.len() > 0 && !crate::text::chars_eq(t.as_slice(), n.as_slice()) && !crate::text::chars_start_with(
        t.as_slice(),
        d.as_slice(),
    ) {
        return Some(UiText::Literal(title.to_owned()));
    }
    if sid.unicode_len() == 0 {
        return Some(UiText::Message("team-agent"));
    }
    None
}

} // verus!
