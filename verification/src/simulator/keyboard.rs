//! The on-screen keyboard of the simulator page: each edit of its text field
//! is turned into the keys that make the simulator's text follow it.
use vstd::prelude::*;
use crate::simulator::event::SimulatorKey;
use crate::text::{chars_of, chars_start_with, seq_starts_with, string_of};

verus! {

/// The HID usage code of Backspace.
pub const BACKSPACE: u16 = 42;

/// What one key does to the simulator's text: Backspace drops the last
/// character, typed text is appended, other keys leave the text alone.
pub open spec fn apply_key(text: Seq<char>, key: SimulatorKey) -> Seq<char> {
    match key {
        SimulatorKey::Code(code) => if code == BACKSPACE && text.len() > 0 {
            text.drop_last()
        } else {
            text
        },
        SimulatorKey::Text(t) => text + t@,
        SimulatorKey::Button(_) => text,
    }
}

/// The text after the keys are pressed in order.
pub open spec fn apply_keys(text: Seq<char>, keys: Seq<SimulatorKey>) -> Seq<char>
    decreases keys.len(),
{
    if keys.len() == 0 {
        text
    } else {
        apply_key(apply_keys(text, keys.drop_last()), keys.last())
    }
}

/// `n` Backspace keys.
pub open spec fn backspaces(keys: Seq<SimulatorKey>, n: int) -> bool {
    keys.len() == n && forall|i: int| 0 <= i < n ==> keys[i] == SimulatorKey::Code(BACKSPACE)
}

/// The keys an edit from `prev` to `next` is forwarded as: the added text
/// when text was appended, Backspaces when text was removed from the end,
/// and otherwise Backspaces over all of `prev` followed by the whole of
/// `next`.
pub open spec fn edit_keys(prev: Seq<char>, next: Seq<char>, keys: Seq<SimulatorKey>) -> bool {
    if seq_starts_with(next, prev) {
        if next.len() == prev.len() {
            keys.len() == 0
        } else {
            &&& keys.len() == 1
            &&& keys[0] matches SimulatorKey::Text(t) && t@ == next.subrange(
                prev.len() as int,
                next.len() as int,
            )
        }
    } else if seq_starts_with(prev, next) {
        backspaces(keys, prev.len() - next.len())
    } else if next.len() == 0 {
        backspaces(keys, prev.len() as int)
    } else {
        &&& keys.len() == prev.len() + 1
        &&& backspaces(keys.drop_last(), prev.len() as int)
        &&& keys.last() matches SimulatorKey::Text(t) && t@ == next
    }
}

proof fn lemma_backspaces(text: Seq<char>, keys: Seq<SimulatorKey>, n: int)
    requires
        0 <= n <= text.len(),
        backspaces(keys, n),
    ensures
        apply_keys(text, keys) =~= text.subrange(0, text.len() - n),
    decreases n,
{
    if n > 0 {
        let shorter = keys.drop_last();
        assert(backspaces(shorter, n - 1));
        lemma_backspaces(text, shorter, n - 1);
    }
}

/// The text typed into the page's keyboard field.
#[derive(Clone, Default)]
pub struct KeyboardDraft(String);

impl View for KeyboardDraft {
    type V = Seq<char>;

    closed spec fn view(&self) -> Seq<char> {
        self.0@
    }
}

impl KeyboardDraft {
    /// An empty field.
    pub fn new() -> (r: Self)
        ensures
            r@ == Seq::<char>::empty(),
    {
        KeyboardDraft(String::new())
    }

    /// The field's text.
    pub fn value(&self) -> (r: &str)
        ensures
            r@ == self@,
    {
        self.0.as_str()
    }

    /// Whether the field is empty.
    pub fn is_empty(&self) -> (r: bool)
        ensures
            r == (self@.len() == 0),
    {
        self.0.as_str().is_empty()
    }

    /// Sets the field to `next` and returns the keys that bring the
    /// simulator's text from the old value to the new one.
    pub fn replace(&mut self, next: String) -> (r: Vec<SimulatorKey>)
        ensures
            final(self)@ == next@,
            edit_keys(old(self)@, next@, r@),
            apply_keys(old(self)@, r@) == next@,
    {
        let previous = chars_of(self.0.as_str());
        let current = chars_of(next.as_str());
        self.0 = next;
        let ghost prev = previous@;
        let ghost cur = current@;
        if chars_start_with(current.as_slice(), previous.as_slice()) {
            if current.len() == previous.len() {
                assert(cur =~= prev);
                return Vec::new();
            }
            let added = string_of(&current.as_slice()[previous.len()..current.len()]);
            let mut keys = Vec::new();
            keys.push(SimulatorKey::Text(added));
            proof {
                assert(keys@.drop_last() =~= Seq::<SimulatorKey>::empty());
                assert(apply_keys(prev, keys@.drop_last()) == prev);
                assert(keys@.last() == keys@[0]);
                assert(prev + cur.subrange(prev.len() as int, cur.len() as int) =~= cur);
                assert(apply_keys(prev, keys@) == apply_key(prev, keys@[0]));
            }
            return keys;
        }
        let mut keys: Vec<SimulatorKey> = Vec::new();
        let prefix = chars_start_with(previous.as_slice(), current.as_slice());
        let count = if prefix {
            previous.len() - current.len()
        } else {
            previous.len()
        };
        let mut i: usize = 0;
        while i < count
            invariant
                i <= count,
                backspaces(keys@, i as int),
            decreases count - i,
        {
            keys.push(SimulatorKey::Code(BACKSPACE));
            i = i + 1;
            proof {
                assert(keys@.drop_last() =~= keys@.subrange(0, i - 1));
            }
        }
        proof {
            lemma_backspaces(prev, keys@, count as int);
            if prefix {
                assert(prev.subrange(0, prev.len() - count) =~= cur);
            }
        }
        if !prefix && current.len() > 0 {
            let text = string_of(current.as_slice());
            let ghost before = keys@;
            keys.push(SimulatorKey::Text(text));
            proof {
                assert(keys@.drop_last() =~= before);
                assert(prev.subrange(0, 0) + cur =~= cur);
            }
        } else {
            proof {
                if !prefix {
                    assert(cur.len() == 0);
                    assert(prev.subrange(0, 0) =~= cur);
                }
            }
        }
        keys
    }
}

} // verus!
