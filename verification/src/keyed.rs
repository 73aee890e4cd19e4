//! Lists of values keyed by text and kept in key order, and the maps they
//! stand for: the shape of a `BTreeMap` with `String` keys.
use vstd::prelude::*;
use crate::text::{chars_of, str_eq};

verus! {

/// Whether text `a` sorts before text `b`: character by character, a
/// proper prefix first (the order of `String`'s `Ord`).
pub open spec fn text_lt(a: Seq<char>, b: Seq<char>) -> bool
    decreases a.len(),
{
    if a.len() == 0 {
        b.len() > 0
    } else if b.len() == 0 {
        false
    } else if a[0] != b[0] {
        a[0] < b[0]
    } else {
        text_lt(a.drop_first(), b.drop_first())
    }
}

/// No text sorts before itself.
pub proof fn lemma_text_lt_irreflexive(a: Seq<char>)
    ensures
        !text_lt(a, a),
    decreases a.len(),
{
    if a.len() > 0 {
        lemma_text_lt_irreflexive(a.drop_first());
    }
}

/// Of two different texts, one sorts before the other, and not both.
pub proof fn lemma_text_lt_total(a: Seq<char>, b: Seq<char>)
    ensures
        a != b ==> (text_lt(a, b) || text_lt(b, a)),
        !(text_lt(a, b) && text_lt(b, a)),
    decreases a.len(),
{
    if a.len() > 0 && b.len() > 0 {
        lemma_text_lt_total(a.drop_first(), b.drop_first());
        if a[0] == b[0] && a != b {
            assert(a.drop_first() != b.drop_first()) by {
                if a.drop_first() == b.drop_first() {
                    assert(a =~= seq![a[0]] + a.drop_first());
                    assert(b =~= seq![b[0]] + b.drop_first());
                }
            }
        }
    } else if a.len() == 0 && b.len() == 0 {
        assert(a =~= b);
    }
}

/// Sorting before is transitive.
pub proof fn lemma_text_lt_transitive(a: Seq<char>, b: Seq<char>, c: Seq<char>)
    requires
        text_lt(a, b),
        text_lt(b, c),
    ensures
        text_lt(a, c),
    decreases a.len(),
{
    if a.len() > 0 && b.len() > 0 && c.len() > 0 && a[0] == b[0] && b[0] == c[0] {
        lemma_text_lt_transitive(a.drop_first(), b.drop_first(), c.drop_first());
    }
}

/// Whether `a` sorts before `b`.
pub fn chars_lt(a: &[char], b: &[char]) -> (r: bool)
    ensures
        r == text_lt(a@, b@),
{
    let mut i: usize = 0;
    proof {
        assert(a@.subrange(0, a@.len() as int) =~= a@);
        assert(b@.subrange(0, b@.len() as int) =~= b@);
    }
    while i < a.len() && i < b.len() && a[i] == b[i]
        invariant
            i <= a@.len(),
            i <= b@.len(),
            text_lt(a@, b@) == text_lt(a@.subrange(i as int, a@.len() as int), b@.subrange(i as int, b@.len() as int)),
        decreases a@.len() - i,
    {
        proof {
            let x = a@.subrange(i as int, a@.len() as int);
            let y = b@.subrange(i as int, b@.len() as int);
            assert(x.drop_first() =~= a@.subrange(i + 1, a@.len() as int));
            assert(y.drop_first() =~= b@.subrange(i + 1, b@.len() as int));
        }
        i = i + 1;
    }
    if i == a.len() {
        i < b.len()
    } else if i == b.len() {
        false
    } else {
        a[i] < b[i]
    }
}

/// Whether the keys are in strictly increasing order.
pub open spec fn keys_sorted<V>(l: Seq<(Seq<char>, V)>) -> bool {
    forall|i: int, j: int| 0 <= i < j < l.len() ==> text_lt(#[trigger] l[i].0, #[trigger] l[j].0)
}

/// Whether some entry has this key.
pub open spec fn has_key<V>(l: Seq<(Seq<char>, V)>, k: Seq<char>) -> bool {
    exists|i: int| 0 <= i < l.len() && #[trigger] l[i].0 == k
}

/// A position that holds this key.
pub open spec fn key_index<V>(l: Seq<(Seq<char>, V)>, k: Seq<char>) -> int {
    choose|i: int| 0 <= i < l.len() && #[trigger] l[i].0 == k
}

/// The map the list stands for: each key to its value.
pub open spec fn keyed_map<V>(l: Seq<(Seq<char>, V)>) -> Map<Seq<char>, V> {
    Map::new(|k: Seq<char>| has_key(l, k), |k: Seq<char>| l[key_index(l, k)].1)
}

/// In a sorted list, an entry's key maps to its value.
pub proof fn lemma_keyed_map_at<V>(l: Seq<(Seq<char>, V)>, i: int)
    requires
        keys_sorted(l),
        0 <= i < l.len(),
    ensures
        keyed_map(l).contains_key(l[i].0),
        keyed_map(l)[l[i].0] == l[i].1,
{
    let k = l[i].0;
    assert(has_key(l, k));
    let j = key_index(l, k);
    if j != i {
        if j < i {
            assert(text_lt(l[j].0, l[i].0));
        } else {
            assert(text_lt(l[i].0, l[j].0));
        }
        lemma_text_lt_irreflexive(k);
        assert(false);
    }
    assert(keyed_map(l)[k] == l[j].1);
}

/// Where each element of a list ends up when one is inserted.
pub proof fn lemma_insert_at<A>(l: Seq<A>, p: int, x: A, i: int)
    requires
        0 <= p <= l.len(),
        0 <= i <= l.len(),
    ensures
        l.insert(p, x).len() == l.len() + 1,
        i < p ==> l.insert(p, x)[i] == l[i],
        i == p ==> l.insert(p, x)[i] == x,
        i > p ==> l.insert(p, x)[i] == l[i - 1],
{
    let front = l.subrange(0, p).push(x);
    let back = l.subrange(p, l.len() as int);
    assert(l.insert(p, x) == front + back);
    if i > p {
        assert((front + back)[i] == back[i - p - 1]);
    }
}

/// Inserting an entry at the place its new key sorts to keeps the list
/// sorted and adds the key to the map.
pub proof fn lemma_keyed_insert<V>(l: Seq<(Seq<char>, V)>, p: int, k: Seq<char>, v: V)
    requires
        keys_sorted(l),
        0 <= p <= l.len(),
        forall|j: int| 0 <= j < p ==> text_lt(#[trigger] l[j].0, k),
        p < l.len() ==> text_lt(k, l[p].0),
    ensures
        keys_sorted(l.insert(p, (k, v))),
        keyed_map(l.insert(p, (k, v))) == keyed_map(l).insert(k, v),
{
    let m = l.insert(p, (k, v));
    l.insert_ensures(p, (k, v));
    assert forall|i: int| 0 <= i < m.len() implies #[trigger] m[i] == (if i < p { l[i] } else if i == p { (k, v) } else { l[i - 1] }) by {
        lemma_insert_at(l, p, (k, v), i);
    }
    assert forall|i: int, j: int| 0 <= i < j < m.len() implies text_lt(#[trigger] m[i].0, #[trigger] m[j].0) by {
        lemma_insert_at(l, p, (k, v), i);
        lemma_insert_at(l, p, (k, v), j);
        if i < p && j == p {
        } else if i < p && j > p {
            if j - 1 > i {
                assert(text_lt(l[i].0, l[j - 1].0));
            }
        } else if i == p {
            if j - 1 > p {
                assert(text_lt(l[p].0, l[j - 1].0));
                lemma_text_lt_transitive(k, l[p].0, l[j - 1].0);
            }
        } else if i < p {
            assert(text_lt(l[i].0, l[j].0));
        } else {
            assert(text_lt(l[i - 1].0, l[j - 1].0));
        }
    }
    let a = keyed_map(m);
    let b = keyed_map(l).insert(k, v);
    assert forall|key: Seq<char>| a.contains_key(key) <==> b.contains_key(key) by {
        if has_key(m, key) {
            let i = choose|i: int| 0 <= i < m.len() && #[trigger] m[i].0 == key;
            if i < p {
                assert(l[i].0 == key);
            } else if i > p {
                assert(l[i - 1].0 == key);
            }
        }
        if has_key(l, key) {
            let i = choose|i: int| 0 <= i < l.len() && #[trigger] l[i].0 == key;
            if i < p {
                assert(m[i].0 == key);
            } else {
                assert(m[i + 1].0 == key);
            }
        }
        if key == k {
            assert(m[p].0 == key);
        }
    }
    assert forall|key: Seq<char>| #[trigger] a.contains_key(key) implies a[key] == b[key] by {
        let i = choose|i: int| 0 <= i < m.len() && #[trigger] m[i].0 == key;
        lemma_keyed_map_at(m, i);
        if i < p {
            lemma_keyed_map_at(l, i);
            lemma_text_lt_total(key, k);
        } else if i > p {
            assert(m[i] == l[i - 1]);
            lemma_keyed_map_at(l, i - 1);
            if i - 1 > p {
                assert(text_lt(l[p].0, l[i - 1].0));
                lemma_text_lt_transitive(k, l[p].0, l[i - 1].0);
            }
            lemma_text_lt_total(key, k);
        }
    }
    assert(a =~= b);
}

/// Replacing the value of an entry keeps the list sorted and sets the
/// key's value in the map.
pub proof fn lemma_keyed_update<V>(l: Seq<(Seq<char>, V)>, p: int, v: V)
    requires
        keys_sorted(l),
        0 <= p < l.len(),
    ensures
        keys_sorted(l.update(p, (l[p].0, v))),
        keyed_map(l.update(p, (l[p].0, v))) == keyed_map(l).insert(l[p].0, v),
{
    let k = l[p].0;
    let m = l.update(p, (k, v));
    assert forall|i: int, j: int| 0 <= i < j < m.len() implies text_lt(#[trigger] m[i].0, #[trigger] m[j].0) by {
        assert(m[i].0 == l[i].0);
        assert(m[j].0 == l[j].0);
    }
    let a = keyed_map(m);
    let b = keyed_map(l).insert(k, v);
    assert forall|key: Seq<char>| a.contains_key(key) <==> b.contains_key(key) by {
        if has_key(m, key) {
            let i = choose|i: int| 0 <= i < m.len() && #[trigger] m[i].0 == key;
            assert(l[i].0 == key);
        }
        if has_key(l, key) {
            let i = choose|i: int| 0 <= i < l.len() && #[trigger] l[i].0 == key;
            assert(m[i].0 == key);
        }
        if key == k {
            assert(m[p].0 == key);
        }
    }
    assert forall|key: Seq<char>| #[trigger] a.contains_key(key) implies a[key] == b[key] by {
        let i = choose|i: int| 0 <= i < m.len() && #[trigger] m[i].0 == key;
        lemma_keyed_map_at(m, i);
        if i != p {
            lemma_keyed_map_at(l, i);
            lemma_text_lt_irreflexive(key);
        }
    }
    assert(a =~= b);
}

/// String pairs as plain values.
pub open spec fn string_pairs(v: Seq<(String, String)>) -> Seq<(Seq<char>, Seq<char>)> {
    v.map_values(|p: (String, String)| (p.0@, p.1@))
}

/// Sets `key` to `value` in a list of string pairs kept in key order, as
/// `BTreeMap::insert` does.
pub fn insert_pair(pairs: &mut Vec<(String, String)>, key: String, value: String)
    requires
        keys_sorted(string_pairs(old(pairs)@)),
    ensures
        keys_sorted(string_pairs(final(pairs)@)),
        keyed_map(string_pairs(final(pairs)@)) == keyed_map(string_pairs(old(pairs)@)).insert(key@, value@),
{
    let ghost l = string_pairs(pairs@);
    let mut p: usize = 0;
    while p < pairs.len() && chars_lt(chars_of(pairs[p].0.as_str()).as_slice(), chars_of(key.as_str()).as_slice())
        invariant
            p <= pairs@.len(),
            l == string_pairs(pairs@),
            forall|j: int| 0 <= j < p ==> text_lt(#[trigger] l[j].0, key@),
        decreases pairs@.len() - p,
    {
        p = p + 1;
    }
    if p < pairs.len() && str_eq(pairs[p].0.as_str(), key.as_str()) {
        let ghost kv = value@;
        let old_pair = pairs.remove(p);
        pairs.insert(p, (old_pair.0, value));
        proof {
            assert(string_pairs(pairs@) =~= l.update(p as int, (l[p as int].0, kv)));
            lemma_keyed_update(l, p as int, kv);
        }
    } else {
        proof {
            if p < pairs@.len() {
                lemma_text_lt_total(l[p as int].0, key@);
            }
        }
        let ghost kk = key@;
        let ghost kv = value@;
        pairs.insert(p, (key, value));
        proof {
            assert(string_pairs(pairs@) =~= l.insert(p as int, (kk, kv)));
            lemma_keyed_insert(l, p as int, kk, kv);
        }
    }
}

} // verus!
