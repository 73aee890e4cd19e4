//! The keyboard-shortcut cheatsheet: the shortcuts grouped by command,
//! and the search over them.
use vstd::prelude::*;
use crate::keyed::{chars_lt, keyed_map, keys_sorted, lemma_keyed_insert, lemma_keyed_map_at, lemma_keyed_update, lemma_text_lt_total, text_lt};
use crate::text::{chars_contain, chars_occur_at, chars_of, occurs_at, seq_contains_seq, str_eq, string_of, trim_end, trim_start, trim_text};

verus! {

/// Address of the cheatsheet page.
pub const PAGE_URL: &'static str = "vmux://cheatsheet/";

/// Name of the host event that carries the cheatsheet.
pub const EVENT: &'static str = "cheatsheet";

/// The cheatsheet: its groups of commands.
#[derive(Clone, Debug, Default, PartialEq, Eq)]
pub struct CheatsheetEvent {
    pub groups: Vec<ShortcutGroup>,
}

/// A group of commands.
#[derive(Clone, Debug, Default, PartialEq, Eq)]
pub struct ShortcutGroup {
    pub name: String,
    pub entries: Vec<ShortcutEntry>,
}

/// A command and the shortcuts that run it.
#[derive(Clone, Debug, Default, PartialEq, Eq)]
pub struct ShortcutEntry {
    pub name: String,
    pub shortcuts: Vec<String>,
}

/// The text of each string.
pub open spec fn texts(s: Seq<String>) -> Seq<Seq<char>> {
    s.map_values(|x: String| x@)
}

/// An entry as plain values: its name and its shortcuts.
pub open spec fn entry_view(e: ShortcutEntry) -> (Seq<char>, Seq<Seq<char>>) {
    (e.name@, texts(e.shortcuts@))
}

/// The entries as plain values.
pub open spec fn entries_view(es: Seq<ShortcutEntry>) -> Seq<(Seq<char>, Seq<Seq<char>>)> {
    es.map_values(|e: ShortcutEntry| entry_view(e))
}

/// Unicode lowercase of a text, as `str::to_lowercase` gives it.
pub uninterp spec fn lowercase(s: Seq<char>) -> Seq<char>;

/// Lowercases a text with `str::to_lowercase`.
#[verifier::external_body]
fn to_lowercase(s: &str) -> (r: String)
    ensures
        r@ == lowercase(s@),
{
    s.to_lowercase()
}

/// Whether one of the shortcuts, lowercased, contains the needle.
pub open spec fn some_shortcut_matches(shortcuts: Seq<Seq<char>>, needle: Seq<char>) -> bool {
    exists|i: int| 0 <= i < shortcuts.len() && seq_contains_seq(lowercase(#[trigger] shortcuts[i]), needle)
}

/// Whether an entry is kept by a search: its group's name matches, or its
/// own name or one of its shortcuts does, lowercased.
pub open spec fn entry_kept(e: (Seq<char>, Seq<Seq<char>>), group_matches: bool, needle: Seq<char>) -> bool {
    group_matches || seq_contains_seq(lowercase(e.0), needle) || some_shortcut_matches(e.1, needle)
}

/// The entries a search keeps, in order.
pub open spec fn kept_entries(
    es: Seq<(Seq<char>, Seq<Seq<char>>)>,
    group_matches: bool,
    needle: Seq<char>,
) -> Seq<(Seq<char>, Seq<Seq<char>>)> {
    es.filter(|e: (Seq<char>, Seq<Seq<char>>)| entry_kept(e, group_matches, needle))
}

/// What a group becomes under a search for a lowercase needle: itself for
/// an empty needle; else the group with the entries kept, or nothing when
/// none is.
pub open spec fn filtered_group(g: ShortcutGroup, needle: Seq<char>, r: Option<ShortcutGroup>) -> bool {
    if needle.len() == 0 {
        r matches Some(x) && x.name@ == g.name@ && entries_view(x.entries@) == entries_view(g.entries@)
    } else {
        let kept = kept_entries(entries_view(g.entries@), seq_contains_seq(lowercase(g.name@), needle), needle);
        if kept.len() == 0 {
            r is None
        } else {
            r matches Some(x) && x.name@ == g.name@ && entries_view(x.entries@) == kept
        }
    }
}

impl ShortcutEntry {
    /// A copy of the entry, with the same name and shortcuts.
    pub fn copy(&self) -> (r: Self)
        ensures
            r.name == self.name,
            r.shortcuts@ == self.shortcuts@,
    {
        ShortcutEntry { name: self.name.clone(), shortcuts: crate::text::copy_strings(&self.shortcuts) }
    }

    /// Whether the entry's name or one of its shortcuts, lowercased,
    /// contains the needle.
    fn matches(&self, needle: &[char]) -> (r: bool)
        ensures
            r == (seq_contains_seq(lowercase(self.name@), needle@) || some_shortcut_matches(
                texts(self.shortcuts@),
                needle@,
            )),
    {
        let name = to_lowercase(self.name.as_str());
        let name_chars = chars_of(name.as_str());
        if chars_contain(name_chars.as_slice(), needle) {
            return true;
        }
        let ghost ts = texts(self.shortcuts@);
        let mut i: usize = 0;
        while i < self.shortcuts.len()
            invariant
                i <= self.shortcuts@.len(),
                ts == texts(self.shortcuts@),
                forall|j: int| 0 <= j < i ==> !seq_contains_seq(lowercase(#[trigger] ts[j]), needle@),
            decreases self.shortcuts@.len() - i,
        {
            let lowered = to_lowercase(self.shortcuts[i].as_str());
            let cs = chars_of(lowered.as_str());
            if chars_contain(cs.as_slice(), needle) {
                assert(seq_contains_seq(lowercase(ts[i as int]), needle@));
                return true;
            }
            i = i + 1;
        }
        false
    }
}

impl ShortcutGroup {
    /// The group as a search for `needle` (already lowercased) shows it.
    pub fn filtered(&self, needle: &str) -> (r: Option<Self>)
        ensures
            filtered_group(*self, needle@, r),
    {
        let needle_chars = chars_of(needle);
        if needle_chars.len() == 0 {
            let mut entries: Vec<ShortcutEntry> = Vec::new();
            let mut i: usize = 0;
            while i < self.entries.len()
                invariant
                    i <= self.entries@.len(),
                    entries_view(entries@) =~= entries_view(self.entries@.subrange(0, i as int)),
                decreases self.entries@.len() - i,
            {
                let e = self.entries[i].copy();
                let ghost before = entries@;
                entries.push(e);
                proof {
                    assert(entries_view(entries@) =~= entries_view(before).push(entry_view(e)));
                    assert(self.entries@.subrange(0, i + 1) =~= self.entries@.subrange(0, i as int).push(self.entries@[i as int]));
                }
                i = i + 1;
            }
            assert(self.entries@.subrange(0, self.entries@.len() as int) =~= self.entries@);
            return Some(ShortcutGroup { name: self.name.clone(), entries });
        }
        let group_name = to_lowercase(self.name.as_str());
        let group_chars = chars_of(group_name.as_str());
        let group_matches = chars_contain(group_chars.as_slice(), needle_chars.as_slice());
        let ghost all = entries_view(self.entries@);
        let ghost pred = |e: (Seq<char>, Seq<Seq<char>>)| entry_kept(e, group_matches, needle@);
        let mut entries: Vec<ShortcutEntry> = Vec::new();
        let mut i: usize = 0;
        while i < self.entries.len()
            invariant
                i <= self.entries@.len(),
                all == entries_view(self.entries@),
                pred == (|e: (Seq<char>, Seq<Seq<char>>)| entry_kept(e, group_matches, needle@)),
                group_matches == seq_contains_seq(lowercase(self.name@), needle@),
                needle_chars@ == needle@,
                entries_view(entries@) =~= all.subrange(0, i as int).filter(pred),
            decreases self.entries@.len() - i,
        {
            let keep = group_matches || self.entries[i].matches(needle_chars.as_slice());
            proof {
                reveal(Seq::filter);
                assert(all.subrange(0, i + 1).drop_last() =~= all.subrange(0, i as int));
                assert(all.subrange(0, i + 1).last() == all[i as int]);
                assert(all[i as int] == entry_view(self.entries@[i as int]));
                assert(keep == pred(all[i as int]));
            }
            if keep {
                let e = self.entries[i].copy();
                let ghost before = entries@;
                entries.push(e);
                assert(entries_view(entries@) =~= entries_view(before).push(entry_view(e)));
            }
            i = i + 1;
        }
        assert(all.subrange(0, all.len() as int) =~= all);
        if entries.len() == 0 {
            None
        } else {
            Some(ShortcutGroup { name: self.name.clone(), entries })
        }
    }
}

/// A key binding as the cheatsheet sees it: the label of its command, where
/// the command is known and has one, and its shortcut as displayed.
#[derive(Clone, Debug, PartialEq, Eq)]
pub struct LabelledShortcut {
    pub label: Option<String>,
    pub shortcut: String,
}

/// The separator between a group and a command in a label.
pub const GROUP_SEPARATOR: &'static str = " > ";

/// The position of the first occurrence of `pat` in `s`.
pub open spec fn first_occurrence(s: Seq<char>, pat: Seq<char>) -> Option<int> {
    if exists|k: int| occurs_at(s, pat, k) && forall|j: int| 0 <= j < k ==> !occurs_at(s, pat, j) {
        Some(choose|k: int| occurs_at(s, pat, k) && forall|j: int| 0 <= j < k ==> !occurs_at(s, pat, j))
    } else {
        None
    }
}

/// The group and the command name a label gives: split at its first
/// ` > `, or the general group and the whole label.
pub open spec fn split_label(label: Seq<char>, general: Seq<char>) -> (Seq<char>, Seq<char>) {
    match first_occurrence(label, GROUP_SEPARATOR@) {
        Some(k) => (label.subrange(0, k), label.subrange(k + 3, label.len() as int)),
        None => (general, label),
    }
}

/// The grouped shortcuts as a map: group, then command, then the distinct
/// shortcuts in the order they came.
pub type Grouped = Map<Seq<char>, Map<Seq<char>, Seq<Seq<char>>>>;

/// Adds a shortcut of command `n` in group `g`, unless it is there already.
pub open spec fn add_shortcut(m: Grouped, g: Seq<char>, n: Seq<char>, sc: Seq<char>) -> Grouped {
    let entries = if m.contains_key(g) { m[g] } else { Map::empty() };
    let scs = if entries.contains_key(n) { entries[n] } else { Seq::empty() };
    m.insert(g, entries.insert(n, if scs.contains(sc) { scs } else { scs.push(sc) }))
}

/// The shortcuts of the bindings, grouped; bindings without a label are left
/// out.
pub open spec fn grouped(bs: Seq<LabelledShortcut>, general: Seq<char>) -> Grouped
    decreases bs.len(),
{
    if bs.len() == 0 {
        Map::empty()
    } else {
        let m = grouped(bs.drop_last(), general);
        match bs.last().label {
            None => m,
            Some(label) => {
                let (g, n) = split_label(label@, general);
                add_shortcut(m, g, n, bs.last().shortcut@)
            },
        }
    }
}

/// The groups as keyed values: each name with its commands as a map.
pub open spec fn groups_model(gs: Seq<ShortcutGroup>) -> Seq<(Seq<char>, Map<Seq<char>, Seq<Seq<char>>>)> {
    gs.map_values(|g: ShortcutGroup| (g.name@, keyed_map(entries_view(g.entries@))))
}

/// Whether the groups are in name order and each group's commands are too.
pub open spec fn sheet_sorted(gs: Seq<ShortcutGroup>) -> bool {
    &&& keys_sorted(groups_model(gs))
    &&& forall|i: int| 0 <= i < gs.len() ==> keys_sorted(entries_view(#[trigger] gs[i].entries@))
}

/// What a cheatsheet lists, as the grouped map.
pub open spec fn sheet_map(gs: Seq<ShortcutGroup>) -> Grouped {
    keyed_map(groups_model(gs))
}

/// Splits a label into its group and command name.
fn split_label_exec(label: &str, general: &str) -> (r: (String, String))
    ensures
        (r.0@, r.1@) == split_label(label@, general@),
{
    let cs = chars_of(label);
    let sep = chars_of(GROUP_SEPARATOR);
    proof {
        reveal_strlit(" > ");
    }
    let mut k: usize = 0;
    while 3 <= cs.len() && k <= cs.len() - 3
        invariant
            sep@ == GROUP_SEPARATOR@,
            sep@.len() == 3,
            cs@ == label@,
            forall|j: int| 0 <= j < k ==> !occurs_at(label@, GROUP_SEPARATOR@, j),
        decreases cs@.len() - k,
    {
        if chars_occur_at(cs.as_slice(), sep.as_slice(), k) {
            proof {
                let f = choose|f: int| occurs_at(label@, GROUP_SEPARATOR@, f) && forall|j: int| 0 <= j < f ==> !occurs_at(label@, GROUP_SEPARATOR@, j);
                assert(occurs_at(label@, GROUP_SEPARATOR@, k as int));
                if f < k {
                } else if f > k {
                    assert(!occurs_at(label@, GROUP_SEPARATOR@, k as int));
                }
            }
            let group = string_of(&cs.as_slice()[0..k]);
            let name = string_of(&cs.as_slice()[k + 3..cs.len()]);
            return (group, name);
        }
        k = k + 1;
    }
    proof {
        assert forall|j: int| !occurs_at(label@, GROUP_SEPARATOR@, j) by {
            if 0 <= j < k {
            }
        }
    }
    (general.to_owned(), label.to_owned())
}

/// The map a list of entries stands for, at a single entry.
proof fn lemma_single_entry(n: Seq<char>, scs: Seq<Seq<char>>)
    ensures
        keys_sorted(seq![(n, scs)]),
        keyed_map(seq![(n, scs)]) == Map::<Seq<char>, Seq<Seq<char>>>::empty().insert(n, scs),
{
    let l = seq![(n, scs)];
    lemma_keyed_insert(Seq::<(Seq<char>, Seq<Seq<char>>)>::empty(), 0, n, scs);
    assert(Seq::<(Seq<char>, Seq<Seq<char>>)>::empty().insert(0, (n, scs)) =~= l);
    assert(keyed_map(Seq::<(Seq<char>, Seq<Seq<char>>)>::empty()) =~= Map::<Seq<char>, Seq<Seq<char>>>::empty());
}

/// Adds a shortcut to a command's entry among sorted entries.
fn add_entry(entries: &mut Vec<ShortcutEntry>, n: String, sc: &String)
    requires
        keys_sorted(entries_view(old(entries)@)),
    ensures
        keys_sorted(entries_view(final(entries)@)),
        ({
            let before = keyed_map(entries_view(old(entries)@));
            let scs = if before.contains_key(n@) { before[n@] } else { Seq::empty() };
            keyed_map(entries_view(final(entries)@)) == before.insert(n@, if scs.contains(sc@) { scs } else { scs.push(sc@) })
        }),
{
    let ghost l = entries_view(entries@);
    let mut p: usize = 0;
    while p < entries.len() && chars_lt(chars_of(entries[p].name.as_str()).as_slice(), chars_of(n.as_str()).as_slice())
        invariant
            p <= entries@.len(),
            l == entries_view(entries@),
            forall|j: int| 0 <= j < p ==> text_lt(#[trigger] l[j].0, n@),
        decreases entries@.len() - p,
    {
        p = p + 1;
    }
    if p < entries.len() && str_eq(entries[p].name.as_str(), n.as_str()) {
        proof {
            lemma_keyed_map_at(l, p as int);
        }
        let mut e = entries.remove(p);
        let ghost old_scs = texts(e.shortcuts@);
        let mut found = false;
        let mut i: usize = 0;
        while i < e.shortcuts.len() && !found
            invariant
                i <= e.shortcuts@.len(),
                old_scs == texts(e.shortcuts@),
                found ==> i < e.shortcuts@.len() && old_scs[i as int] == sc@,
                forall|j: int| 0 <= j < i ==> old_scs[j] != sc@,
            decreases e.shortcuts@.len() - i, if found { 0int } else { 1int },
        {
            if str_eq(e.shortcuts[i].as_str(), sc.as_str()) {
                found = true;
            } else {
                i = i + 1;
            }
        }
        proof {
            if found {
                assert(old_scs[i as int] == sc@);
                assert(old_scs.contains(sc@));
            } else {
                assert(!old_scs.contains(sc@));
            }
        }
        if !found {
            e.shortcuts.push(sc.clone());
            assert(texts(e.shortcuts@) =~= old_scs.push(sc@));
        }
        let ghost newv = texts(e.shortcuts@);
        entries.insert(p, e);
        proof {
            assert(entries_view(entries@) =~= l.update(p as int, (l[p as int].0, newv)));
            lemma_keyed_update(l, p as int, newv);
        }
    } else {
        proof {
            if p < entries@.len() {
                lemma_text_lt_total(l[p as int].0, n@);
            }
            assert(!keyed_map(l).contains_key(n@)) by {
                if keyed_map(l).contains_key(n@) {
                    let j = choose|j: int| 0 <= j < l.len() && #[trigger] l[j].0 == n@;
                    if j < p {
                        crate::keyed::lemma_text_lt_irreflexive(n@);
                    } else if j > p {
                        assert(text_lt(l[p as int].0, l[j].0));
                        crate::keyed::lemma_text_lt_total(l[p as int].0, n@);
                    }
                }
            }
        }
        let mut shortcuts: Vec<String> = Vec::new();
        shortcuts.push(sc.clone());
        let e = ShortcutEntry { name: n, shortcuts };
        proof {
            assert(texts(e.shortcuts@) =~= Seq::<Seq<char>>::empty().push(sc@));
        }
        entries.insert(p, e);
        proof {
            assert(entries_view(entries@) =~= l.insert(p as int, entry_view(e)));
            lemma_keyed_insert(l, p as int, n@, texts(e.shortcuts@));
        }
    }
}

/// Adds a shortcut of command `n` in group `g` among sorted groups.
fn add_to_groups(groups: &mut Vec<ShortcutGroup>, g: String, n: String, sc: &String)
    requires
        sheet_sorted(old(groups)@),
    ensures
        sheet_sorted(final(groups)@),
        sheet_map(final(groups)@) == add_shortcut(sheet_map(old(groups)@), g@, n@, sc@),
{
    let ghost l = groups_model(groups@);
    let ghost gs = groups@;
    let mut p: usize = 0;
    while p < groups.len() && chars_lt(chars_of(groups[p].name.as_str()).as_slice(), chars_of(g.as_str()).as_slice())
        invariant
            p <= groups@.len(),
            gs == groups@,
            l == groups_model(groups@),
            forall|j: int| 0 <= j < p ==> text_lt(#[trigger] l[j].0, g@),
        decreases groups@.len() - p,
    {
        p = p + 1;
    }
    if p < groups.len() && str_eq(groups[p].name.as_str(), g.as_str()) {
        proof {
            lemma_keyed_map_at(l, p as int);
        }
        let mut grp = groups.remove(p);
        assert(grp == gs[p as int]);
        add_entry(&mut grp.entries, n, sc);
        let ghost newv = keyed_map(entries_view(grp.entries@));
        groups.insert(p, grp);
        proof {
            assert(groups@ =~= gs.update(p as int, grp));
            assert(groups_model(groups@) =~= l.update(p as int, (l[p as int].0, newv)));
            lemma_keyed_update(l, p as int, newv);
            assert forall|i: int| 0 <= i < groups@.len() implies keys_sorted(entries_view(#[trigger] groups@[i].entries@)) by {
                if i != p {
                    assert(groups@[i] == gs[i]);
                }
            }
        }
    } else {
        proof {
            if p < groups@.len() {
                lemma_text_lt_total(l[p as int].0, g@);
            }
            assert(!keyed_map(l).contains_key(g@)) by {
                if keyed_map(l).contains_key(g@) {
                    let j = choose|j: int| 0 <= j < l.len() && #[trigger] l[j].0 == g@;
                    if j < p {
                        crate::keyed::lemma_text_lt_irreflexive(g@);
                    } else if j > p {
                        assert(text_lt(l[p as int].0, l[j].0));
                        lemma_text_lt_total(l[p as int].0, g@);
                    }
                }
            }
        }
        let mut shortcuts: Vec<String> = Vec::new();
        shortcuts.push(sc.clone());
        let e = ShortcutEntry { name: n, shortcuts };
        let mut entries: Vec<ShortcutEntry> = Vec::new();
        entries.push(e);
        let grp = ShortcutGroup { name: g, entries };
        proof {
            assert(texts(e.shortcuts@) =~= Seq::<Seq<char>>::empty().push(sc@));
            assert(entries_view(grp.entries@) =~= seq![(n@, texts(e.shortcuts@))]);
            lemma_single_entry(n@, texts(e.shortcuts@));
        }
        groups.insert(p, grp);
        proof {
            let newv = keyed_map(entries_view(grp.entries@));
            assert(groups_model(groups@) =~= l.insert(p as int, (g@, newv)));
            lemma_keyed_insert(l, p as int, g@, newv);
            assert forall|i: int| 0 <= i < groups@.len() implies keys_sorted(entries_view(#[trigger] groups@[i].entries@)) by {
                crate::keyed::lemma_insert_at(gs, p as int, grp, i);
                if i < p {
                    assert(groups@[i] == gs[i]);
                } else if i > p {
                    assert(groups@[i] == gs[i - 1]);
                }
            }
            assert(Map::<Seq<char>, Seq<Seq<char>>>::empty().insert(n@, Seq::<Seq<char>>::empty().push(sc@)) == newv);
        }
    }
}

impl CheatsheetEvent {
    /// The cheatsheet of the bindings: each labelled binding's shortcut
    /// under its command, its command under its group (from a label
    /// `<group> > <command>`, else the general group), each shortcut once;
    /// groups and commands in name order.
    pub fn of(bindings: &[LabelledShortcut], general: &str) -> (r: Self)
        ensures
            sheet_sorted(r.groups@),
            sheet_map(r.groups@) == grouped(bindings@, general@),
    {
        let mut groups: Vec<ShortcutGroup> = Vec::new();
        proof {
            assert(groups_model(groups@) =~= Seq::empty());
            assert(sheet_map(groups@) =~= Map::empty());
        }
        let mut i: usize = 0;
        while i < bindings.len()
            invariant
                i <= bindings@.len(),
                sheet_sorted(groups@),
                sheet_map(groups@) == grouped(bindings@.subrange(0, i as int), general@),
            decreases bindings@.len() - i,
        {
            proof {
                assert(bindings@.subrange(0, i + 1).drop_last() =~= bindings@.subrange(0, i as int));
                assert(bindings@.subrange(0, i + 1).last() == bindings@[i as int]);
            }
            let b = &bindings[i];
            if let Some(label) = &b.label {
                let (g, n) = split_label_exec(label.as_str(), general);
                add_to_groups(&mut groups, g, n, &b.shortcut);
            }
            i = i + 1;
        }
        assert(bindings@.subrange(0, bindings@.len() as int) =~= bindings@);
        CheatsheetEvent { groups }
    }
}

/// Whether `sc` is listed under command `n` of group `g`.
pub open spec fn lists_shortcut(m: Grouped, g: Seq<char>, n: Seq<char>, sc: Seq<char>) -> bool {
    m.contains_key(g) && m[g].contains_key(n) && m[g][n].contains(sc)
}

/// Adding a shortcut keeps every shortcut listed before.
proof fn lemma_add_keeps(m: Grouped, g: Seq<char>, n: Seq<char>, sc: Seq<char>, g2: Seq<char>, n2: Seq<char>, sc2: Seq<char>)
    requires
        lists_shortcut(m, g2, n2, sc2),
    ensures
        lists_shortcut(add_shortcut(m, g, n, sc), g2, n2, sc2),
{
    let r = add_shortcut(m, g, n, sc);
    if g2 == g && n2 == n {
        let scs = m[g][n];
        if !scs.contains(sc) {
            let j = choose|j: int| 0 <= j < scs.len() && scs[j] == sc2;
            assert(scs.push(sc)[j] == sc2);
        }
    }
}

/// Every binding with a label has its shortcut listed under the group and
/// command its label names.
pub proof fn lemma_grouped_lists_every_binding(bs: Seq<LabelledShortcut>, general: Seq<char>, i: int)
    requires
        0 <= i < bs.len(),
        bs[i].label is Some,
    ensures
        ({
            let (g, n) = split_label(bs[i].label->0@, general);
            lists_shortcut(grouped(bs, general), g, n, bs[i].shortcut@)
        }),
    decreases bs.len(),
{
    let (g, n) = split_label(bs[i].label->0@, general);
    let sc = bs[i].shortcut@;
    let prev = grouped(bs.drop_last(), general);
    if i == bs.len() - 1 {
        let entries = if prev.contains_key(g) { prev[g] } else { Map::empty() };
        let scs = if entries.contains_key(n) { entries[n] } else { Seq::empty() };
        if !scs.contains(sc) {
            assert(scs.push(sc)[scs.len() as int] == sc);
        }
    } else {
        lemma_grouped_lists_every_binding(bs.drop_last(), general, i);
        assert(bs.drop_last()[i] == bs[i]);
        if let Some(label) = bs.last().label {
            let (g2, n2) = split_label(label@, general);
            lemma_add_keeps(prev, g2, n2, bs.last().shortcut@, g, n, sc);
        }
    }
}

/// No shortcut is listed twice under one command.
pub proof fn lemma_grouped_lists_each_shortcut_once(bs: Seq<LabelledShortcut>, general: Seq<char>)
    ensures
        forall|g: Seq<char>, n: Seq<char>| grouped(bs, general).contains_key(g) && #[trigger] grouped(bs, general)[g].contains_key(n)
            ==> grouped(bs, general)[g][n].no_duplicates(),
    decreases bs.len(),
{
    if bs.len() > 0 {
        lemma_grouped_lists_each_shortcut_once(bs.drop_last(), general);
        let prev = grouped(bs.drop_last(), general);
        if let Some(label) = bs.last().label {
            let (g0, n0) = split_label(label@, general);
            let sc = bs.last().shortcut@;
            let entries = if prev.contains_key(g0) { prev[g0] } else { Map::empty() };
            let scs = if entries.contains_key(n0) { entries[n0] } else { Seq::empty() };
            assert(scs.no_duplicates());
            if !scs.contains(sc) {
                let t = scs.push(sc);
                assert forall|a: int, b: int| 0 <= a < t.len() && 0 <= b < t.len() && a != b implies t[a] != t[b] by {
                    if a == scs.len() as int {
                        assert(t[b] == scs[b]);
                    } else if b == scs.len() as int {
                        assert(t[a] == scs[a]);
                    }
                }
            }
        }
    }
}

/// The number of entries in the groups.
pub open spec fn entry_count(groups: Seq<ShortcutGroup>) -> nat
    decreases groups.len(),
{
    if groups.len() == 0 {
        0
    } else {
        entry_count(groups.drop_last()) + groups.last().entries@.len()
    }
}

/// What the cheatsheet shows for a query: the needle is the query trimmed
/// and lowercased, each group is filtered by it (empty groups dropped), and
/// the count is the number of entries shown.
pub open spec fn shown(
    groups: Seq<ShortcutGroup>,
    query: Seq<char>,
    r: Seq<ShortcutGroup>,
) -> bool {
    let needle = lowercase(trim_end(trim_start(query)));
    exists|picks: Seq<Option<ShortcutGroup>>| #![trigger picks.len()]
        picks.len() == groups.len() && (forall|i: int| 0 <= i < groups.len() ==> filtered_group(groups[i], needle, #[trigger] picks[i]))
            && r == picks.filter_map(|p: Option<ShortcutGroup>| p)
}

impl CheatsheetEvent {
    /// The groups shown for a search query, and how many entries they hold.
    pub fn visible(&self, query: &str) -> (r: (Vec<ShortcutGroup>, usize))
        requires
            entry_count(self.groups@) <= usize::MAX,
        ensures
            shown(self.groups@, query@, r.0@),
            r.1 == entry_count(r.0@),
    {
        let trimmed = trim_text(query);
        let mut trimmed_text = String::new();
        let mut k: usize = 0;
        while k < trimmed.len()
            invariant
                k <= trimmed@.len(),
                trimmed_text@ =~= trimmed@.subrange(0, k as int),
            decreases trimmed@.len() - k,
        {
            crate::text::push_char(&mut trimmed_text, trimmed[k]);
            k = k + 1;
        }
        assert(trimmed@.subrange(0, trimmed@.len() as int) =~= trimmed@);
        let needle = to_lowercase(trimmed_text.as_str());
        let ghost picks: Seq<Option<ShortcutGroup>> = Seq::empty();
        let mut out: Vec<ShortcutGroup> = Vec::new();
        let mut count: usize = 0;
        let mut i: usize = 0;
        while i < self.groups.len()
            invariant
                i <= self.groups@.len(),
                needle@ == lowercase(trim_end(trim_start(query@))),
                picks.len() == i,
                forall|j: int| 0 <= j < i ==> filtered_group(self.groups@[j], needle@, #[trigger] picks[j]),
                out@ == picks.filter_map(|p: Option<ShortcutGroup>| p),
                count == entry_count(out@),
                entry_count(out@) <= entry_count(self.groups@.subrange(0, i as int)),
                entry_count(self.groups@) <= usize::MAX,
            decreases self.groups@.len() - i,
        {
            let g = self.groups[i].filtered(needle.as_str());
            proof {
                lemma_entry_count_prefix(self.groups@, i + 1);
                let old_picks = picks;
                picks = picks.push(g);
                assert(picks.drop_last() =~= old_picks);
                assert(self.groups@.subrange(0, i + 1).drop_last() =~= self.groups@.subrange(0, i as int));
                assert(self.groups@.subrange(0, i + 1).last() == self.groups@[i as int]);
                assert(entry_count(self.groups@.subrange(0, i + 1)) == entry_count(self.groups@.subrange(0, i as int)) + self.groups@[i as int].entries@.len());
            }
            match g {
                Some(x) => {
                    proof {
                        lemma_filtered_fewer(self.groups@[i as int], needle@, g);
                    }
                    let n = x.entries.len();
                    let ghost before = out@;
                    out.push(x);
                    proof {
                        assert(out@.drop_last() =~= before);
                        assert(out@ =~= before + seq![x]);
                    }
                    count = count + n;
                },
                None => {},
            }
            i = i + 1;
        }
        assert(self.groups@.subrange(0, self.groups@.len() as int) =~= self.groups@);
        (out, count)
    }
}

/// A filtered group holds no more entries than the group.
proof fn lemma_filtered_fewer(g: ShortcutGroup, needle: Seq<char>, r: Option<ShortcutGroup>)
    requires
        filtered_group(g, needle, r),
    ensures
        r matches Some(x) ==> x.entries@.len() <= g.entries@.len(),
{
    if let Some(x) = r {
        assert(entries_view(x.entries@).len() == x.entries@.len());
        if needle.len() > 0 {
            let kept = kept_entries(entries_view(g.entries@), seq_contains_seq(lowercase(g.name@), needle), needle);
            entries_view(g.entries@).lemma_filter_len(|e: (Seq<char>, Seq<Seq<char>>)| entry_kept(e, seq_contains_seq(lowercase(g.name@), needle), needle));
            assert(kept.len() <= entries_view(g.entries@).len());
        }
    }
}

/// The entries of a prefix of the groups are no more than those of all.
proof fn lemma_entry_count_prefix(groups: Seq<ShortcutGroup>, i: int)
    requires
        0 <= i <= groups.len(),
    ensures
        entry_count(groups.subrange(0, i)) <= entry_count(groups),
    decreases groups.len() - i,
{
    if i < groups.len() {
        lemma_entry_count_prefix(groups, i + 1);
        assert(groups.subrange(0, i + 1).drop_last() =~= groups.subrange(0, i));
    } else {
        assert(groups.subrange(0, i) =~= groups);
    }
}

} // verus!
