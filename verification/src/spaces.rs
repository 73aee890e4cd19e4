//! Spaces: what each space command does, which space becomes active when
//! one closes, how the footer lists them and what its clicks mean.
use vstd::prelude::*;
use crate::footer::{FooterCommandEvent, SpaceRow};
use crate::text::{chars_of, decimal, parse_decimal, push_str, radix, radix_digits, str_eq};

verus! {

/// A command on spaces.
#[derive(Clone, Copy, Debug, PartialEq, Eq, Structural)]
pub enum SpaceCommand {
    New,
    Close,
    Next,
    Previous,
    Rename,
    SwapPrev,
    SwapNext,
}

/// The position of the first occurrence of `x`.
pub open spec fn position(s: Seq<u64>, x: u64) -> Option<int> {
    if exists|k: int| 0 <= k < s.len() && s[k] == x && forall|j: int| 0 <= j < k ==> s[j] != x {
        Some(choose|k: int| 0 <= k < s.len() && s[k] == x && forall|j: int| 0 <= j < k ==> s[j] != x)
    } else {
        None
    }
}

/// Finds the first occurrence of `x`.
fn position_exec(s: &[u64], x: u64) -> (r: Option<usize>)
    ensures
        match position(s@, x) {
            None => r is None,
            Some(k) => r == Some(k as usize),
        },
{
    let mut i: usize = 0;
    while i < s.len()
        invariant
            i <= s@.len(),
            forall|j: int| 0 <= j < i ==> s@[j] != x,
        decreases s@.len() - i,
    {
        if s[i] == x {
            proof {
                let k = choose|k: int| 0 <= k < s@.len() && s@[k] == x && forall|j: int| 0 <= j < k ==> s@[j] != x;
                assert(0 <= i < s@.len() && s@[i as int] == x && forall|j: int| 0 <= j < i ==> s@[j] != x);
                if k < i {
                    assert(s@[k] != x);
                } else if k > i {
                    assert(s@[i as int] != x);
                }
            }
            return Some(i);
        }
        i = i + 1;
    }
    None
}

/// The space that becomes active when `active` closes: the next one in
/// order, or the first after the last; none when `active` is alone or not
/// among them.
pub open spec fn after_close(active: u64, siblings: Seq<u64>) -> Option<u64> {
    if siblings.len() <= 1 {
        None
    } else {
        match position(siblings, active) {
            None => None,
            Some(i) => {
                let next = if i + 1 < siblings.len() { i + 1 } else { 0 };
                if siblings[next] == active {
                    None
                } else {
                    Some(siblings[next])
                }
            },
        }
    }
}

/// The space to activate when `active` closes.
pub fn pick_after_close(active: u64, siblings: &[u64]) -> (r: Option<u64>)
    ensures
        r == after_close(active, siblings@),
        distinct(siblings@) ==> forall|i: int| 0 <= i < siblings@.len() && siblings@.len() > 1 && #[trigger] siblings@[i] == active
            ==> r == Some(siblings@[(i + 1) % (siblings@.len() as int)]),
        distinct(siblings@) && !siblings@.contains(active) ==> r is None,
{
    proof {
        if distinct(siblings@) {
            lemma_after_close_distinct(active, siblings@);
        }
    }
    if siblings.len() <= 1 {
        return None;
    }
    let idx = match position_exec(siblings, active) {
        Some(i) => i,
        None => return None,
    };
    let next = if idx + 1 < siblings.len() { idx + 1 } else { 0 };
    let target = siblings[next];
    if target == active {
        None
    } else {
        Some(target)
    }
}

/// Whether no space occurs twice.
pub open spec fn distinct(s: Seq<u64>) -> bool {
    forall|i: int, j: int| 0 <= i < s.len() && 0 <= j < s.len() && i != j ==> s[i] != s[j]
}

/// In a list without repeats, the position of an element is where it is.
pub proof fn lemma_position_of_distinct(s: Seq<u64>, i: int)
    requires
        distinct(s),
        0 <= i < s.len(),
    ensures
        position(s, s[i]) == Some(i),
{
    let x = s[i];
    assert(0 <= i < s.len() && s[i] == x && forall|j: int| 0 <= j < i ==> s[j] != x);
    let k = choose|k: int| 0 <= k < s.len() && s[k] == x && forall|j: int| 0 <= j < k ==> s[j] != x;
    if k < i {
        assert(s[k] != x);
    } else if k > i {
        assert(s[i] != x);
    }
}

/// Moving to the next space and then to the previous one comes back to
/// where it started, when no space is listed twice.
pub proof fn lemma_next_then_previous(siblings: Seq<u64>, i: int)
    requires
        distinct(siblings),
        siblings.len() > 1,
        0 <= i < siblings.len(),
    ensures
        ({
            let t = cycle_target(siblings, i, true);
            position(siblings, t) matches Some(j) && cycle_target(siblings, j, false) == siblings[i]
        }),
{
    let n = siblings.len() as int;
    let j = (i + 1) % n;
    assert(0 <= j < n) by (nonlinear_arith)
        requires
            n > 1,
            j == (i + 1) % n,
    ;
    lemma_position_of_distinct(siblings, j);
    assert((j + n - 1) % n == i) by (nonlinear_arith)
        requires
            0 <= i < n,
            j == (i + 1) % n,
    ;
}

/// The space made active when one closes is another of its siblings.
pub proof fn lemma_after_close_is_another_sibling(active: u64, siblings: Seq<u64>)
    ensures
        after_close(active, siblings) matches Some(t) ==> t != active && siblings.contains(t),
{
    if let Some(t) = after_close(active, siblings) {
        let i = position(siblings, active)->0;
        let next = if i + 1 < siblings.len() { i + 1 } else { 0 };
        assert(siblings[next] == t);
    }
}

/// When a space closes, the one after it in order becomes active, and the
/// first one only after the last: with `active` first found at position `i`
/// among two or more siblings, the pick is the sibling at `(i + 1) % len`,
/// unless that is `active` again; a space not among them picks nothing.
pub proof fn lemma_after_close_is_next_in_order(active: u64, siblings: Seq<u64>, i: int)
    requires
        siblings.len() > 1,
        0 <= i < siblings.len(),
        siblings[i] == active,
        forall|j: int| 0 <= j < i ==> siblings[j] != active,
    ensures
        0 <= (i + 1) % (siblings.len() as int) < siblings.len(),
        siblings[(i + 1) % (siblings.len() as int)] != active
            ==> after_close(active, siblings) == Some(siblings[(i + 1) % (siblings.len() as int)]),
        siblings[(i + 1) % (siblings.len() as int)] == active ==> after_close(active, siblings) is None,
{
    let n = siblings.len() as int;
    let k = choose|k: int| 0 <= k < siblings.len() && siblings[k] == active && forall|j: int| 0 <= j < k ==> siblings[j] != active;
    if k < i {
        assert(siblings[k] != active);
    } else if k > i {
        assert(siblings[i] != active);
    }
    assert(position(siblings, active) == Some(i));
    if i + 1 < n {
        assert((i + 1) % n == i + 1) by (nonlinear_arith)
            requires
                0 <= i + 1 < n,
        ;
    } else {
        assert(i + 1 == n);
        assert((i + 1) % n == 0) by (nonlinear_arith)
            requires
                i + 1 == n,
                n > 0,
        ;
    }
}

/// With no space listed twice, closing the space at position `i` of two or
/// more makes the next one in order active, and the first one after the
/// last; closing a space that is not listed makes none active.
pub proof fn lemma_after_close_distinct(active: u64, siblings: Seq<u64>)
    requires
        distinct(siblings),
    ensures
        !siblings.contains(active) ==> after_close(active, siblings) is None,
        forall|i: int| 0 <= i < siblings.len() && siblings.len() > 1 && #[trigger] siblings[i] == active
            ==> after_close(active, siblings) == Some(siblings[(i + 1) % (siblings.len() as int)]),
{
    assert forall|i: int| 0 <= i < siblings.len() && siblings.len() > 1 && #[trigger] siblings[i] == active
        implies after_close(active, siblings) == Some(siblings[(i + 1) % (siblings.len() as int)]) by {
        let n = siblings.len() as int;
        assert forall|j: int| 0 <= j < i implies siblings[j] != active by {
            assert(siblings[j] != siblings[i]);
        }
        lemma_after_close_is_next_in_order(active, siblings, i);
        let m = (i + 1) % n;
        if m == i {
            assert((i + 1) % n != i) by (nonlinear_arith)
                requires
                    0 <= i < n,
                    n > 1,
            ;
        }
        assert(siblings[m] != siblings[i]);
    }
    if !siblings.contains(active) && siblings.len() > 1 {
        if let Some(k) = position(siblings, active) {
            assert(siblings[k] == active);
        }
    }
}

/// The name of a new space when `count` spaces exist: `Space <count + 1>`.
pub open spec fn new_space_name(count: nat) -> Seq<char> {
    "Space "@ + radix_digits(count + 1, 10)
}

/// What the host does for a space command.
#[derive(Clone, Debug, PartialEq, Eq)]
pub struct SpacePlan {
    /// Spawn a space with this name; it becomes the active one.
    pub spawn: Option<String>,
    /// Make this space the active one.
    pub activate: Option<u64>,
    /// Despawn this space.
    pub despawn: Option<u64>,
    /// Swap the active space with its neighbour of the same kind, before
    /// it (`SwapPrev`) or after it (`SwapNext`).
    pub reorder: Option<SpaceCommand>,
}

/// The plan that does nothing.
pub open spec fn idle(p: SpacePlan) -> bool {
    p.spawn is None && p.activate is None && p.despawn is None && p.reorder is None
}

/// The space that `Next` or `Previous` moves to from position `i`.
pub open spec fn cycle_target(siblings: Seq<u64>, i: int, forward: bool) -> u64 {
    let n = siblings.len() as int;
    if forward {
        siblings[(i + 1) % n]
    } else {
        siblings[(i + n - 1) % n]
    }
}

/// What a space command does. `active` is the most recently activated
/// space, `siblings` the spaces under its parent in order, `count` how many
/// spaces exist and `has_main` whether the main window to hold a new space
/// exists.
pub open spec fn space_plan(
    cmd: SpaceCommand,
    active: Option<u64>,
    siblings: Seq<u64>,
    count: nat,
    has_main: bool,
    p: SpacePlan,
) -> bool {
    match cmd {
        SpaceCommand::New => if has_main {
            p.spawn matches Some(n) && n@ == new_space_name(count) && p.activate is None
                && p.despawn is None && p.reorder is None
        } else {
            idle(p)
        },
        SpaceCommand::Close => match active {
            None => idle(p),
            Some(a) => if siblings.len() <= 1 {
                if has_main {
                    p.spawn matches Some(n) && n@ == new_space_name(count) && p.activate is None
                        && p.despawn == Some(a) && p.reorder is None
                } else {
                    idle(p)
                }
            } else {
                p.spawn is None && p.activate == after_close(a, siblings) && p.despawn == Some(a)
                    && p.reorder is None
            },
        },
        SpaceCommand::Next | SpaceCommand::Previous => match active {
            None => idle(p),
            Some(a) => if siblings.len() <= 1 {
                idle(p)
            } else {
                match position(siblings, a) {
                    None => idle(p),
                    Some(i) => {
                        let t = cycle_target(siblings, i, cmd == SpaceCommand::Next);
                        p.spawn is None && p.despawn is None && p.reorder is None && p.activate == (
                        if t != a {
                            Some(t)
                        } else {
                            None
                        })
                    },
                }
            },
        },
        SpaceCommand::Rename => idle(p),
        SpaceCommand::SwapPrev | SpaceCommand::SwapNext => match active {
            None => idle(p),
            Some(_) => p.spawn is None && p.activate is None && p.despawn is None && p.reorder
                == Some(cmd),
        },
    }
}

/// The name of a new space.
fn space_name(count: u64) -> (r: String)
    requires
        count < u64::MAX,
    ensures
        r@ == new_space_name(count as nat),
{
    let mut r = String::new();
    push_str(&mut r, "Space ");
    let digits = radix(count + 1, 10);
    push_str(&mut r, digits.as_str());
    r
}

/// Plans a space command.
pub fn handle_space_command(
    cmd: SpaceCommand,
    active: Option<u64>,
    siblings: &[u64],
    count: u64,
    has_main: bool,
) -> (r: SpacePlan)
    requires
        count < u64::MAX,
    ensures
        space_plan(cmd, active, siblings@, count as nat, has_main, r),
{
    let none = SpacePlan { spawn: None, activate: None, despawn: None, reorder: None };
    match cmd {
        SpaceCommand::New => {
            if has_main {
                SpacePlan { spawn: Some(space_name(count)), activate: None, despawn: None, reorder: None }
            } else {
                none
            }
        },
        SpaceCommand::Close => {
            let a = match active {
                Some(a) => a,
                None => return none,
            };
            if siblings.len() <= 1 {
                if has_main {
                    SpacePlan {
                        spawn: Some(space_name(count)),
                        activate: None,
                        despawn: Some(a),
                        reorder: None,
                    }
                } else {
                    none
                }
            } else {
                SpacePlan {
                    spawn: None,
                    activate: pick_after_close(a, siblings),
                    despawn: Some(a),
                    reorder: None,
                }
            }
        },
        SpaceCommand::Next | SpaceCommand::Previous => {
            let a = match active {
                Some(a) => a,
                None => return none,
            };
            if siblings.len() <= 1 {
                return none;
            }
            let idx = match position_exec(siblings, a) {
                Some(i) => i,
                None => return none,
            };
            let n = siblings.len();
            let target_idx = if cmd == SpaceCommand::Next {
                (idx + 1) % n
            } else if idx == 0 {
                assert((idx + n - 1) % (n as int) == n - 1) by (nonlinear_arith)
                    requires
                        idx == 0,
                        n > 1,
                ;
                n - 1
            } else {
                assert((idx + n - 1) % (n as int) == idx - 1) by (nonlinear_arith)
                    requires
                        0 < idx < n,
                ;
                idx - 1
            };
            let target = siblings[target_idx];
            SpacePlan {
                spawn: None,
                activate: if target != a {
                    Some(target)
                } else {
                    None
                },
                despawn: None,
                reorder: None,
            }
        },
        SpaceCommand::Rename => none,
        SpaceCommand::SwapPrev | SpaceCommand::SwapNext => {
            if active.is_some() {
                SpacePlan { spawn: None, activate: None, despawn: None, reorder: Some(cmd) }
            } else {
                none
            }
        },
    }
}

/// The name a space is listed under: its own, or `Space` when it has none.
pub open spec fn listed_name(name: Seq<char>) -> Seq<char> {
    if name.len() == 0 {
        "Space"@
    } else {
        name
    }
}

/// Whether `row` lists the space `(id, name)`, given the active one.
pub open spec fn lists_space(row: SpaceRow, space: (u64, String), active: Option<u64>) -> bool {
    &&& row.id@ == radix_digits(space.0 as nat, 10)
    &&& row.name@ == listed_name(space.1@)
    &&& row.is_active == (active == Some(space.0))
}

/// The footer's rows for the spaces `(id, name)` in order.
pub fn space_rows(spaces: &[(u64, String)], active: Option<u64>) -> (r: Vec<SpaceRow>)
    ensures
        r@.len() == spaces@.len(),
        forall|i: int| 0 <= i < r@.len() ==> lists_space(#[trigger] r@[i], spaces@[i], active),
{
    let mut r: Vec<SpaceRow> = Vec::new();
    let mut i: usize = 0;
    while i < spaces.len()
        invariant
            i <= spaces@.len(),
            r@.len() == i,
            forall|j: int| 0 <= j < i ==> lists_space(#[trigger] r@[j], spaces@[j], active),
        decreases spaces@.len() - i,
    {
        let (id, name) = &spaces[i];
        let listed = if name.unicode_len() == 0 {
            "Space".to_owned()
        } else {
            name.clone()
        };
        let is_active = match active {
            Some(a) => a == *id,
            None => false,
        };
        r.push(SpaceRow { id: radix(*id, 10), name: listed, is_active });
        i = i + 1;
    }
    r
}

/// What the host does with a footer command.
#[derive(Clone, Copy, Debug, PartialEq, Eq, Structural)]
pub enum FooterAction {
    /// Run `SpaceCommand::New`.
    New,
    /// Run `SpaceCommand::Close` on the active space.
    Close,
    /// Make this space the active one.
    Activate(u64),
    /// Nothing.
    Ignore,
}

/// The number a decimal id denotes, read as Rust reads a `u64`: an
/// optional `+`, then digits, within range.
pub open spec fn id_value(s: Seq<char>) -> Option<nat> {
    if s.len() > 0 && s[0] == '+' {
        decimal(s.drop_first(), u64::MAX as nat)
    } else {
        decimal(s, u64::MAX as nat)
    }
}

/// Reads a space id.
pub fn parse_id(text: &str) -> (r: Option<u64>)
    ensures
        match id_value(text@) {
            None => r is None,
            Some(v) => r == Some(v as u64),
        },
{
    let cs = chars_of(text);
    if cs.len() > 0 && cs[0] == '+' {
        let rest = &cs.as_slice()[1..cs.len()];
        assert(rest@ =~= cs@.drop_first());
        parse_decimal(rest, u64::MAX)
    } else {
        parse_decimal(cs.as_slice(), u64::MAX)
    }
}

/// What a footer command does: `new` and `close` run the space command;
/// `switch` activates the first space whose id its `space_id` denotes, and
/// does nothing if there is no such id or space; anything else does
/// nothing.
pub open spec fn footer_action(evt: FooterCommandEvent, spaces: Seq<u64>) -> FooterAction {
    if evt.command@ == "new"@ {
        FooterAction::New
    } else if evt.command@ == "close"@ {
        FooterAction::Close
    } else if evt.command@ == "switch"@ {
        match evt.space_id {
            None => FooterAction::Ignore,
            Some(id) => match id_value(id@) {
                None => FooterAction::Ignore,
                Some(v) => match position(spaces, v as u64) {
                    None => FooterAction::Ignore,
                    Some(k) => FooterAction::Activate(spaces[k]),
                },
            },
        }
    } else {
        FooterAction::Ignore
    }
}

/// Decides what a footer command does, given the ids of the spaces.
pub fn on_footer_command(evt: &FooterCommandEvent, spaces: &[u64]) -> (r: FooterAction)
    ensures
        r == footer_action(*evt, spaces@),
{
    if str_eq(evt.command.as_str(), "new") {
        FooterAction::New
    } else if str_eq(evt.command.as_str(), "close") {
        FooterAction::Close
    } else if str_eq(evt.command.as_str(), "switch") {
        let id = match &evt.space_id {
            Some(id) => id,
            None => return FooterAction::Ignore,
        };
        let bits = match parse_id(id.as_str()) {
            Some(b) => b,
            None => return FooterAction::Ignore,
        };
        match position_exec(spaces, bits) {
            Some(k) => FooterAction::Activate(spaces[k]),
            None => FooterAction::Ignore,
        }
    } else {
        FooterAction::Ignore
    }
}

/// Position `i` holds the space shown: activated last, and the later one
/// in the list when two were activated at the same time. `spaces` pairs
/// each space with when it was last activated.
pub open spec fn shown_at(spaces: Seq<(u64, u64)>, i: int) -> bool {
    &&& 0 <= i < spaces.len()
    &&& forall|j: int| 0 <= j < spaces.len() ==> #[trigger] spaces[j].1 <= spaces[i].1
    &&& forall|j: int| i < j < spaces.len() ==> #[trigger] spaces[j].1 < spaces[i].1
}

/// The space shown among `spaces`; every other space is hidden.
pub fn shown_space(spaces: &[(u64, u64)]) -> (r: Option<u64>)
    ensures
        spaces@.len() == 0 <==> r is None,
        r matches Some(id) ==> exists|i: int| shown_at(spaces@, i) && #[trigger] spaces@[i].0 == id,
{
    if spaces.len() == 0 {
        return None;
    }
    let mut best: usize = 0;
    let mut i: usize = 1;
    while i < spaces.len()
        invariant
            1 <= i <= spaces@.len(),
            best < i,
            forall|j: int| 0 <= j < i ==> #[trigger] spaces@[j].1 <= spaces@[best as int].1,
            forall|j: int| best < j < i ==> #[trigger] spaces@[j].1 < spaces@[best as int].1,
        decreases spaces@.len() - i,
    {
        if spaces[i].1 >= spaces[best].1 {
            best = i;
        }
        i = i + 1;
    }
    assert(shown_at(spaces@, best as int));
    Some(spaces[best].0)
}

/// Only one position can hold the space shown.
pub proof fn lemma_one_space_shown(spaces: Seq<(u64, u64)>, i: int, k: int)
    requires
        shown_at(spaces, i),
        shown_at(spaces, k),
    ensures
        i == k,
{
    if i < k {
        assert(spaces[k].1 < spaces[i].1);
        assert(spaces[i].1 <= spaces[k].1);
    } else if k < i {
        assert(spaces[i].1 < spaces[k].1);
        assert(spaces[k].1 <= spaces[i].1);
    }
}

/// Closing the active space always leaves a space, and the one shown
/// afterwards is another: when the space was alone under its parent a new
/// space `Space <count + 1>` is spawned first (and becomes active), so the
/// count stays the same; otherwise the next sibling (the first after the
/// last) becomes active and one space fewer remains.
pub proof fn lemma_close_leaves_a_space(active: u64, siblings: Seq<u64>, count: nat, p: SpacePlan)
    requires
        space_plan(SpaceCommand::Close, Some(active), siblings, count, true, p),
        siblings.contains(active),
        distinct(siblings),
        siblings.len() <= count,
    ensures
        p.despawn == Some(active),
        count + (if p.spawn is Some { 1int } else { 0int }) - 1 >= 1,
        siblings.len() <= 1 ==> (p.spawn matches Some(n) && n@ == new_space_name(count)) && p.activate is None,
        siblings.len() > 1 ==> p.spawn is None && (p.activate matches Some(t) && t != active
            && siblings.contains(t) && p.activate == after_close(active, siblings)),
{
    if siblings.len() > 1 {
        let i = choose|i: int| 0 <= i < siblings.len() && siblings[i] == active;
        lemma_position_of_distinct(siblings, i);
        let next = if i + 1 < siblings.len() { i + 1 } else { 0 };
        assert(next != i);
        assert(siblings[next] != active);
        assert(after_close(active, siblings) == Some(siblings[next]));
        assert(siblings.contains(siblings[next]));
    }
}

/// The spaces payload to send to the footer, only when it differs from the
/// one sent last: it then becomes the last one sent.
pub fn emit_if_changed(last: &mut String, body: String) -> (r: Option<String>)
    ensures
        body@ == old(last)@ ==> r is None && final(last)@ == old(last)@,
        body@ != old(last)@ ==> (r matches Some(b) && b@ == body@) && final(last)@ == body@,
{
    if str_eq(body.as_str(), last.as_str()) {
        return None;
    }
    *last = body.clone();
    Some(body)
}

} // verus!
