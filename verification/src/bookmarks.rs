//! Default bookmarks: the URLs from the settings are offered once each, and
//! the ones not pinned yet are pinned after the existing pins.
use vstd::prelude::*;
use crate::text::{views, ascii_lower, chars_eq, chars_of, lower_ascii, trim_bounds, trim_end, trim_start};

verus! {

/// The text without its trailing slashes.
pub open spec fn trim_slashes(s: Seq<char>) -> Seq<char>
    decreases s.len(),
{
    if s.len() > 0 && s.last() == '/' {
        trim_slashes(s.drop_last())
    } else {
        s
    }
}

/// The key a bookmark URL is compared by: trimmed of white space, without
/// trailing slashes, in ASCII lowercase.
pub open spec fn bookmark_key(url: Seq<char>) -> Seq<char> {
    ascii_lower(trim_slashes(trim_end(trim_start(url))))
}

/// The key a bookmark URL is compared by.
pub fn key_of(url: &str) -> (r: Vec<char>)
    ensures
        r@ == bookmark_key(url@),
{
    let cs = chars_of(url);
    let (start, n) = trim_bounds(cs.as_slice());
    let ghost trimmed = cs@.subrange(start as int, n as int);
    let mut end: usize = n;
    while end > start && cs[end - 1] == '/'
        invariant
            start <= end <= n <= cs@.len(),
            trim_slashes(trimmed) == trim_slashes(cs@.subrange(start as int, end as int)),
        decreases end,
    {
        proof {
            assert(cs@.subrange(start as int, end as int).drop_last() =~= cs@.subrange(
                start as int,
                end - 1,
            ));
        }
        end = end - 1;
    }
    lower_ascii(&cs.as_slice()[start..end])
}

/// The keys of a list of URLs.
pub open spec fn keys_of(urls: Seq<String>) -> Seq<Seq<char>> {
    urls.map_values(|u: String| bookmark_key(u@))
}

/// The default URLs claimed from `defaults` when the keys in `offered` were
/// offered before: in order, each URL with a non-empty key that neither was
/// offered before nor repeats an earlier claimed key.
pub open spec fn claimed(offered: Seq<Seq<char>>, defaults: Seq<String>) -> Seq<String>
    decreases defaults.len(),
{
    if defaults.len() == 0 {
        Seq::empty()
    } else {
        let before = claimed(offered, defaults.drop_last());
        let url = defaults.last();
        let key = bookmark_key(url@);
        if key.len() > 0 && !offered.contains(key) && !keys_of(before).contains(key) {
            before.push(url)
        } else {
            before
        }
    }
}


/// Whether `key` is among `keys`.
fn contains_key(keys: &Vec<Vec<char>>, key: &[char]) -> (r: bool)
    ensures
        r == views(keys@).contains(key@),
{
    let ghost view = views(keys@);
    let mut i: usize = 0;
    while i < keys.len()
        invariant
            i <= keys@.len(),
            view == views(keys@),
            forall|j: int| 0 <= j < i ==> view[j] != key@,
        decreases keys@.len() - i,
    {
        if chars_eq(keys[i].as_slice(), key) {
            assert(view[i as int] == key@);
            return true;
        }
        i = i + 1;
    }
    false
}

/// After claiming, every default with a key has its key offered: it was
/// offered before or claimed now.
proof fn lemma_claimed_covers(offered: Seq<Seq<char>>, defaults: Seq<String>, i: int)
    requires
        0 <= i < defaults.len(),
        bookmark_key(defaults[i]@).len() > 0,
    ensures
        offered.contains(bookmark_key(defaults[i]@)) || keys_of(claimed(offered, defaults)).contains(
            bookmark_key(defaults[i]@),
        ),
    decreases defaults.len(),
{
    let before = claimed(offered, defaults.drop_last());
    let key = bookmark_key(defaults[i]@);
    if i < defaults.len() - 1 {
        lemma_claimed_covers(offered, defaults.drop_last(), i);
        assert(defaults.drop_last()[i] == defaults[i]);
        if keys_of(before).contains(key) {
            let j = choose|j: int| 0 <= j < keys_of(before).len() && keys_of(before)[j] == key;
            let url = defaults.last();
            if bookmark_key(url@).len() > 0 && !offered.contains(bookmark_key(url@)) && !keys_of(before).contains(bookmark_key(url@)) {
                assert(keys_of(before.push(url))[j] == key);
            }
        }
    } else {
        if !offered.contains(key) && !keys_of(before).contains(key) {
            let after = before.push(defaults.last());
            assert(keys_of(after)[before.len() as int] == key);
        }
    }
}

/// Nothing is claimed when every default's key was offered already.
proof fn lemma_claimed_nothing_new(offered: Seq<Seq<char>>, defaults: Seq<String>)
    requires
        forall|i: int| 0 <= i < defaults.len() && bookmark_key(#[trigger] defaults[i]@).len() > 0
            ==> offered.contains(bookmark_key(defaults[i]@)),
    ensures
        claimed(offered, defaults) == Seq::<String>::empty(),
    decreases defaults.len(),
{
    if defaults.len() > 0 {
        assert forall|i: int| 0 <= i < defaults.drop_last().len() && bookmark_key(#[trigger] defaults.drop_last()[i]@).len() > 0
            implies offered.contains(bookmark_key(defaults.drop_last()[i]@)) by {
            assert(defaults.drop_last()[i] == defaults[i]);
        }
        lemma_claimed_nothing_new(offered, defaults.drop_last());
        let last = defaults.len() - 1;
        assert(defaults[last] == defaults.last());
    }
}

/// Claiming the same defaults twice claims nothing the second time: a
/// default is offered once, and one the user removed is not offered again.
pub proof fn lemma_claim_new_is_idempotent(urls: Seq<String>, defaults: Seq<String>)
    ensures
        claimed(keys_of(urls + claimed(keys_of(urls), defaults)), defaults) == Seq::<String>::empty(),
{
    let first = claimed(keys_of(urls), defaults);
    let offered = keys_of(urls + first);
    assert(offered =~= keys_of(urls) + keys_of(first));
    assert forall|i: int| 0 <= i < defaults.len() && bookmark_key(#[trigger] defaults[i]@).len() > 0
        implies offered.contains(bookmark_key(defaults[i]@)) by {
        let key = bookmark_key(defaults[i]@);
        lemma_claimed_covers(keys_of(urls), defaults, i);
        if keys_of(urls).contains(key) {
            let j = choose|j: int| 0 <= j < keys_of(urls).len() && keys_of(urls)[j] == key;
            assert(offered[j] == key);
        } else {
            let j = choose|j: int| 0 <= j < keys_of(first).len() && keys_of(first)[j] == key;
            assert(offered[keys_of(urls).len() + j] == key);
        }
    }
    lemma_claimed_nothing_new(offered, defaults);
}

/// The order after `n`, stopping at the largest.
pub open spec fn next_order(n: u64) -> u64 {
    if n == u64::MAX {
        n
    } else {
        (n + 1) as u64
    }
}

/// The largest of the orders, if there are any.
pub open spec fn max_order(orders: Seq<u64>) -> Option<u64>
    decreases orders.len(),
{
    if orders.len() == 0 {
        None
    } else {
        match max_order(orders.drop_last()) {
            None => Some(orders.last()),
            Some(m) => Some(if orders.last() > m { orders.last() } else { m }),
        }
    }
}

/// The order the first new pin gets: after the last existing one, or zero.
pub open spec fn first_order(orders: Seq<u64>) -> u64 {
    match max_order(orders) {
        None => 0,
        Some(m) => next_order(m),
    }
}

/// Pinning the claimed URLs in turn: a URL whose key is pinned already is
/// skipped; the others are pinned with consecutive orders from `start`.
/// Gives the pins, the keys pinned after them and the next order.
pub open spec fn seeded(
    claimed_urls: Seq<String>,
    pinned: Set<Seq<char>>,
    start: u64,
) -> (Seq<(String, u64)>, Set<Seq<char>>, u64)
    decreases claimed_urls.len(),
{
    if claimed_urls.len() == 0 {
        (Seq::empty(), pinned, start)
    } else {
        let (pins, keys, next) = seeded(claimed_urls.drop_last(), pinned, start);
        let url = claimed_urls.last();
        let key = bookmark_key(url@);
        if keys.contains(key) {
            (pins, keys, next)
        } else {
            (pins.push((url, next)), keys.insert(key), next_order(next))
        }
    }
}

/// The pins seeding adds: the claimed URLs not pinned yet, each once, after
/// the existing bookmark orders.
pub open spec fn seed_pins(claimed_urls: Seq<String>, pinned_urls: Seq<String>, orders: Seq<u64>) -> Seq<(String, u64)> {
    seeded(claimed_urls, keys_of(pinned_urls).to_set(), first_order(orders)).0
}

/// The largest order.
fn max_order_exec(orders: &[u64]) -> (r: Option<u64>)
    ensures
        r == max_order(orders@),
{
    let mut best: Option<u64> = None;
    let mut i: usize = 0;
    while i < orders.len()
        invariant
            i <= orders@.len(),
            best == max_order(orders@.subrange(0, i as int)),
        decreases orders@.len() - i,
    {
        proof {
            assert(orders@.subrange(0, i + 1).drop_last() =~= orders@.subrange(0, i as int));
        }
        let o = orders[i];
        best = match best {
            None => Some(o),
            Some(m) => Some(if o > m { o } else { m }),
        };
        i = i + 1;
    }
    assert(orders@.subrange(0, orders@.len() as int) =~= orders@);
    best
}

/// The pins to add when seeding the claimed defaults, given the URLs pinned
/// already and the orders of the existing bookmarks.
pub fn seed_pins_exec(claimed_urls: &[String], pinned_urls: &[String], orders: &[u64]) -> (r: Vec<(String, u64)>)
    ensures
        r@ == seed_pins(claimed_urls@, pinned_urls@, orders@),
{
    let mut pinned: Vec<Vec<char>> = Vec::new();
    let mut i: usize = 0;
    while i < pinned_urls.len()
        invariant
            i <= pinned_urls@.len(),
            views(pinned@) =~= keys_of(pinned_urls@.subrange(0, i as int)),
        decreases pinned_urls@.len() - i,
    {
        let k = key_of(pinned_urls[i].as_str());
        let ghost before = pinned@;
        pinned.push(k);
        proof {
            assert(views(pinned@) =~= views(before).push(k@));
            assert(pinned_urls@.subrange(0, i + 1) =~= pinned_urls@.subrange(0, i as int).push(pinned_urls@[i as int]));
        }
        i = i + 1;
    }
    assert(pinned_urls@.subrange(0, pinned_urls@.len() as int) =~= pinned_urls@);
    let mut next: u64 = match max_order_exec(orders) {
        None => 0,
        Some(m) => if m == u64::MAX { m } else { m + 1 },
    };
    let ghost initial = keys_of(pinned_urls@).to_set();
    let mut pins: Vec<(String, u64)> = Vec::new();
    let mut c: usize = 0;
    while c < claimed_urls.len()
        invariant
            c <= claimed_urls@.len(),
            ({
                let s = seeded(claimed_urls@.subrange(0, c as int), initial, first_order(orders@));
                &&& pins@ == s.0
                &&& views(pinned@).to_set() == s.1
                &&& next == s.2
            }),
        decreases claimed_urls@.len() - c,
    {
        proof {
            assert(claimed_urls@.subrange(0, c + 1).drop_last() =~= claimed_urls@.subrange(0, c as int));
            assert(claimed_urls@.subrange(0, c + 1).last() == claimed_urls@[c as int]);
        }
        let key = key_of(claimed_urls[c].as_str());
        let known = contains_key(&pinned, key.as_slice());
        proof {
            assert(views(pinned@).contains(key@) == views(pinned@).to_set().contains(key@));
        }
        if !known {
            pins.push((claimed_urls[c].clone(), next));
            let ghost before = pinned@;
            let ghost kv = key@;
            pinned.push(key);
            proof {
                let now = views(pinned@);
                let was = views(before);
                assert(now =~= was.push(kv));
                assert forall|a: Seq<char>| now.contains(a) <==> (was.contains(a) || a == kv) by {
                    if now.contains(a) {
                        let j = choose|j: int| 0 <= j < now.len() && now[j] == a;
                        if j < was.len() {
                            assert(was[j] == a);
                        }
                    }
                    if was.contains(a) {
                        let j = choose|j: int| 0 <= j < was.len() && was[j] == a;
                        assert(now[j] == a);
                    }
                    if a == kv {
                        assert(now[was.len() as int] == a);
                    }
                }
                assert(now.to_set() =~= was.to_set().insert(kv));
            }
            next = if next == u64::MAX { next } else { next + 1 };
        }
        c = c + 1;
    }
    assert(claimed_urls@.subrange(0, claimed_urls@.len() as int) =~= claimed_urls@);
    pins
}

/// The default bookmark URLs offered so far; each is offered only once, so
/// one the user removed is not brought back.
#[derive(Clone, Debug, Default, PartialEq, Eq)]
pub struct OfferedBookmarkDefaults {
    pub urls: Vec<String>,
}

impl OfferedBookmarkDefaults {
    /// Claims the defaults not offered before, records them as offered and
    /// returns them, in order.
    pub fn claim_new(&mut self, defaults: &[String]) -> (r: Vec<String>)
        ensures
            r@ == claimed(keys_of(old(self).urls@), defaults@),
            final(self).urls@ == old(self).urls@ + r@,
    {
        let ghost initial = keys_of(self.urls@);
        let mut offered: Vec<Vec<char>> = Vec::new();
        let mut i: usize = 0;
        while i < self.urls.len()
            invariant
                i <= self.urls@.len(),
                initial == keys_of(self.urls@),
                initial.len() == self.urls@.len(),
                offered@.len() == i,
                views(offered@) =~= initial.subrange(0, i as int),
            decreases self.urls@.len() - i,
        {
            let k = key_of(self.urls[i].as_str());
            let ghost before = offered@;
            offered.push(k);
            proof {
                assert(initial[i as int] == bookmark_key(self.urls@[i as int]@));
                assert(offered@ == before.push(k));
                assert forall|j: int| 0 <= j <= i implies #[trigger] views(offered@)[j] == initial.subrange(0, i + 1)[j] by {
                    if j < i {
                        assert(offered@[j] == before[j]);
                        assert(views(before)[j] == initial.subrange(0, i as int)[j]);
                    }
                }
            }
            i = i + 1;
        }
        let mut claimed_urls: Vec<String> = Vec::new();
        let ghost start = self.urls@;
        let mut d: usize = 0;
        while d < defaults.len()
            invariant
                d <= defaults@.len(),
                claimed_urls@ == claimed(initial, defaults@.subrange(0, d as int)),
                self.urls@ == start + claimed_urls@,
                initial == keys_of(start),
                views(offered@) =~= initial + keys_of(claimed_urls@),
            decreases defaults@.len() - d,
        {
            let ghost prefix = defaults@.subrange(0, d + 1);
            proof {
                assert(prefix.drop_last() =~= defaults@.subrange(0, d as int));
                assert(prefix.last() == defaults@[d as int]);
            }
            let key = key_of(defaults[d].as_str());
            let seen = contains_key(&offered, key.as_slice());
            proof {
                let before = keys_of(claimed_urls@);
                assert((initial + before).contains(key@) == (initial.contains(key@) || before.contains(key@))) by {
                    if initial.contains(key@) {
                        let j = choose|j: int| 0 <= j < initial.len() && initial[j] == key@;
                        assert((initial + before)[j] == key@);
                    }
                    if before.contains(key@) {
                        let j = choose|j: int| 0 <= j < before.len() && before[j] == key@;
                        assert((initial + before)[initial.len() + j] == key@);
                    }
                }
            }
            if key.len() > 0 && !seen {
                let url = defaults[d].clone();
                self.urls.push(url.clone());
                claimed_urls.push(url);
                let ghost before_offered = offered@;
                let ghost key_view = key@;
                offered.push(key);
                proof {
                    let m = views(offered@);
                    let bm = views(before_offered);
                    assert(m =~= bm.push(key_view)) by {
                        assert forall|j: int| 0 <= j < m.len() implies m[j] == bm.push(key_view)[j] by {
                            if j < bm.len() {
                                assert(offered@[j] == before_offered[j]);
                            }
                        }
                    }
                    assert(keys_of(claimed_urls@) =~= keys_of(claimed_urls@.drop_last()).push(key@));
                    assert(self.urls@ =~= start + claimed_urls@);
                }
            }
            d = d + 1;
        }
        assert(defaults@.subrange(0, defaults@.len() as int) =~= defaults@);
        claimed_urls
    }
}

/// What seeding the default bookmarks does: the pins to spawn, in order,
/// and whether the bookmarks must be saved.
#[derive(Clone, Debug, PartialEq, Eq)]
pub struct SeedPlan {
    pub pins: Vec<(String, u64)>,
    pub dirty: bool,
}

/// The default bookmark URLs from the settings.
pub struct BookmarkDefaults<'a> {
    urls: &'a [String],
}

impl<'a> BookmarkDefaults<'a> {
    /// The defaults as a spec value.
    pub closed spec fn urls_view(&self) -> Seq<String> {
        self.urls@
    }

    /// The defaults listed in the settings.
    pub fn of(urls: &'a [String]) -> (r: Self)
        ensures
            r.urls_view() == urls@,
    {
        BookmarkDefaults { urls }
    }

    /// The key a URL is compared by: trimmed, without trailing slashes, in
    /// ASCII lowercase.
    pub fn key(url: &str) -> (r: String)
        ensures
            r@ == bookmark_key(url@),
    {
        let k = key_of(url);
        crate::text::string_of(k.as_slice())
    }

    /// Seeds the defaults not offered before: claims them (recording them
    /// as offered), then pins those not pinned yet after the existing
    /// bookmarks. Nothing is pinned or saved when nothing was claimed.
    pub fn seed(self, pinned_urls: &[String], orders: &[u64], offered: &mut OfferedBookmarkDefaults) -> (r: SeedPlan)
        ensures
            ({
                let c = claimed(keys_of(old(offered).urls@), self.urls_view());
                &&& final(offered).urls@ == old(offered).urls@ + c
                &&& r.dirty == (c.len() > 0)
                &&& r.pins@ == (if c.len() > 0 { seed_pins(c, pinned_urls@, orders@) } else { Seq::empty() })
            }),
    {
        let claimed_urls = offered.claim_new(self.urls);
        if claimed_urls.len() == 0 {
            return SeedPlan { pins: Vec::new(), dirty: false };
        }
        let pins = seed_pins_exec(claimed_urls.as_slice(), pinned_urls, orders);
        SeedPlan { pins, dirty: true }
    }
}

} // verus!
