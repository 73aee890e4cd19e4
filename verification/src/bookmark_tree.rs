//! The bookmark tree as the side sheet shows it: whether a page is
//! bookmarked, and the folders a bookmark can be moved to, each labelled
//! with its path.
use vstd::prelude::*;
use crate::text::{push_str, str_eq};

verus! {

/// A bookmark: what the tree logic reads of it, its page's URL.
#[derive(Clone, Debug, PartialEq, Eq)]
pub struct BookmarkRow {
    pub url: String,
}

/// A bookmark folder: its id, its name, the id of the folder it is in (none
/// at the top level) and the bookmarks directly in it.
#[derive(Clone, Debug, PartialEq, Eq)]
pub struct FolderRow {
    pub uuid: String,
    pub name: String,
    pub parent: Option<String>,
    pub children: Vec<BookmarkRow>,
}

/// A node of the bookmark tree.
#[derive(Clone, Debug, PartialEq, Eq)]
pub enum BookmarkNode {
    Entry(BookmarkRow),
    Folder(FolderRow),
}

/// A folder a bookmark can be moved to: its id, its path as a label, and
/// the ids of the folders above it, outermost first.
#[derive(Clone, Debug, PartialEq, Eq)]
pub struct BookmarkFolderChoice {
    pub uuid: String,
    pub label: String,
    pub ancestors: Vec<String>,
}

/// Whether a node is, or directly holds, a bookmark of this URL.
pub open spec fn node_has_url(node: BookmarkNode, url: Seq<char>) -> bool {
    match node {
        BookmarkNode::Entry(b) => b.url@ == url,
        BookmarkNode::Folder(f) => exists|j: int| 0 <= j < f.children@.len() && (#[trigger] f.children@[j]).url@ == url,
    }
}

/// Whether one of the folder's bookmarks has this URL.
fn folder_has_url(f: &FolderRow, url: &str) -> (r: bool)
    ensures
        r == node_has_url(BookmarkNode::Folder(*f), url@),
{
    let mut j: usize = 0;
    while j < f.children.len()
        invariant
            j <= f.children@.len(),
            forall|k: int| 0 <= k < j ==> (#[trigger] f.children@[k]).url@ != url@,
        decreases f.children@.len() - j,
    {
        if str_eq(f.children[j].url.as_str(), url) {
            return true;
        }
        j = j + 1;
    }
    false
}

/// Whether the page at `url` is bookmarked: a top-level bookmark or a
/// bookmark directly in a folder has its URL.
pub fn bookmark_nodes_contain_url(nodes: &[BookmarkNode], url: &str) -> (r: bool)
    ensures
        r == exists|i: int| 0 <= i < nodes@.len() && node_has_url(#[trigger] nodes@[i], url@),
{
    let mut i: usize = 0;
    while i < nodes.len()
        invariant
            i <= nodes@.len(),
            forall|k: int| 0 <= k < i ==> !node_has_url(#[trigger] nodes@[k], url@),
        decreases nodes@.len() - i,
    {
        let hit = match &nodes[i] {
            BookmarkNode::Entry(b) => str_eq(b.url.as_str(), url),
            BookmarkNode::Folder(f) => folder_has_url(f, url),
        };
        if hit {
            assert(node_has_url(nodes@[i as int], url@));
            return true;
        }
        i = i + 1;
    }
    false
}

/// A folder as plain values: id, name and parent id.
pub type FolderView = (Seq<char>, Seq<char>, Option<Seq<char>>);

/// The plain values of a folder.
pub open spec fn folder_view(f: FolderRow) -> FolderView {
    (f.uuid@, f.name@, match f.parent {
        Some(p) => Some(p@),
        None => None,
    })
}

/// The folders among the nodes, in order.
pub open spec fn folder_rows(nodes: Seq<BookmarkNode>) -> Seq<FolderRow>
    decreases nodes.len(),
{
    if nodes.len() == 0 {
        Seq::empty()
    } else {
        let before = folder_rows(nodes.drop_last());
        match nodes.last() {
            BookmarkNode::Folder(f) => before.push(f),
            BookmarkNode::Entry(_) => before,
        }
    }
}

/// Whether two folders hold the same values.
pub open spec fn same_folder(a: FolderRow, b: FolderRow) -> bool {
    &&& a.uuid == b.uuid
    &&& a.name == b.name
    &&& a.parent == b.parent
    &&& a.children@ == b.children@
}

/// Whether two lists hold the same folders in the same order.
pub open spec fn same_folders(a: Seq<FolderRow>, b: Seq<FolderRow>) -> bool {
    a.len() == b.len() && forall|i: int| 0 <= i < a.len() ==> same_folder(#[trigger] a[i], b[i])
}

impl FolderRow {
    /// A copy of the folder.
    pub fn copy(&self) -> (r: Self)
        ensures
            same_folder(r, *self),
    {
        let mut children: Vec<BookmarkRow> = Vec::new();
        let mut i: usize = 0;
        while i < self.children.len()
            invariant
                i <= self.children@.len(),
                children@ =~= self.children@.subrange(0, i as int),
            decreases self.children@.len() - i,
        {
            children.push(BookmarkRow { url: self.children[i].url.clone() });
            i = i + 1;
        }
        assert(self.children@.subrange(0, self.children@.len() as int) =~= self.children@);
        let parent = match &self.parent {
            Some(p) => Some(p.clone()),
            None => None,
        };
        FolderRow { uuid: self.uuid.clone(), name: self.name.clone(), parent, children }
    }
}

/// The folders among the nodes, in order.
pub fn bookmark_folder_rows(nodes: &[BookmarkNode]) -> (r: Vec<FolderRow>)
    ensures
        same_folders(r@, folder_rows(nodes@)),
{
    let mut r: Vec<FolderRow> = Vec::new();
    let mut i: usize = 0;
    while i < nodes.len()
        invariant
            i <= nodes@.len(),
            same_folders(r@, folder_rows(nodes@.subrange(0, i as int))),
        decreases nodes@.len() - i,
    {
        proof {
            assert(nodes@.subrange(0, i + 1).drop_last() =~= nodes@.subrange(0, i as int));
            assert(nodes@.subrange(0, i + 1).last() == nodes@[i as int]);
        }
        match &nodes[i] {
            BookmarkNode::Folder(f) => {
                let c = f.copy();
                let ghost before = r@;
                r.push(c);
                proof {
                    let want = folder_rows(nodes@.subrange(0, i + 1));
                    assert(want == folder_rows(nodes@.subrange(0, i as int)).push(*f));
                    assert forall|k: int| 0 <= k < r@.len() implies same_folder(#[trigger] r@[k], want[k]) by {
                        if k < before.len() {
                            assert(r@[k] == before[k]);
                        }
                    }
                }
            },
            BookmarkNode::Entry(_) => {},
        }
        i = i + 1;
    }
    assert(nodes@.subrange(0, nodes@.len() as int) =~= nodes@);
    r
}

/// A folder choice as plain values: id, label and ancestor ids.
pub type ChoiceView = (Seq<char>, Seq<char>, Seq<Seq<char>>);

/// The text of each string.
pub open spec fn texts(s: Seq<String>) -> Seq<Seq<char>> {
    s.map_values(|x: String| x@)
}

/// The plain values of the folders.
pub open spec fn folder_views(fs: Seq<FolderRow>) -> Seq<FolderView> {
    fs.map_values(|f: FolderRow| folder_view(f))
}

/// The plain values of the choices.
pub open spec fn choice_views(cs: Seq<BookmarkFolderChoice>) -> Seq<ChoiceView> {
    cs.map_values(|c: BookmarkFolderChoice| (c.uuid@, c.label@, texts(c.ancestors@)))
}

/// The ids visited so far.
pub open spec fn id_set(v: Seq<String>) -> Set<Seq<char>> {
    texts(v).to_set()
}

/// How many folders (counted by position) have an id not visited yet.
pub open spec fn unvisited(fs: Seq<FolderView>, visited: Set<Seq<char>>) -> nat
    decreases fs.len(),
{
    if fs.len() == 0 {
        0
    } else {
        unvisited(fs.drop_last(), visited) + if visited.contains(fs.last().0) {
            0nat
        } else {
            1nat
        }
    }
}

/// Visiting more ids leaves no more folders unvisited, and fewer when a
/// folder's id is among the new ones.
proof fn lemma_unvisited_shrinks(fs: Seq<FolderView>, v: Set<Seq<char>>, w: Set<Seq<char>>, i: int)
    requires
        v.subset_of(w),
    ensures
        unvisited(fs, w) <= unvisited(fs, v),
        0 <= i < fs.len() && !v.contains(fs[i].0) && w.contains(fs[i].0) ==> unvisited(fs, w) < unvisited(fs, v),
    decreases fs.len(),
{
    if fs.len() > 0 {
        lemma_unvisited_shrinks(fs.drop_last(), v, w, i);
        if 0 <= i < fs.len() - 1 {
            assert(fs.drop_last()[i] == fs[i]);
        }
    }
}

/// The label of a folder under a parent labelled `parent_label`: its name,
/// after the parent's label and ` / ` when there is one.
pub open spec fn child_label(parent_label: Seq<char>, name: Seq<char>) -> Seq<char> {
    if parent_label.len() == 0 {
        name
    } else {
        parent_label + " / "@ + name
    }
}

/// The walk over the folders under `parent`, from position `i` on: each
/// one not visited yet is marked visited, offered with its label and
/// ancestors, and then the folders under it are walked the same way. Gives
/// the ids visited and the choices offered. `fuel` bounds the nesting; the
/// walk is always given more than there are folders, which no nesting can
/// use up, since each level visits a new folder.
pub open spec fn walk(
    fs: Seq<FolderView>,
    parent: Option<Seq<char>>,
    parent_label: Seq<char>,
    ancestors: Seq<Seq<char>>,
    visited: Set<Seq<char>>,
    out: Seq<ChoiceView>,
    i: int,
    fuel: nat,
) -> (Set<Seq<char>>, Seq<ChoiceView>)
    decreases fuel, fs.len() - i,
{
    if fuel == 0 || i < 0 || i >= fs.len() {
        (visited, out)
    } else {
        let f = fs[i];
        if f.2 != parent || visited.contains(f.0) {
            walk(fs, parent, parent_label, ancestors, visited, out, i + 1, fuel)
        } else {
            let label = child_label(parent_label, f.1);
            let inner = walk(
                fs,
                Some(f.0),
                label,
                ancestors.push(f.0),
                visited.insert(f.0),
                out.push((f.0, label, ancestors)),
                0,
                (fuel - 1) as nat,
            );
            walk(fs, parent, parent_label, ancestors, inner.0, inner.1, i + 1, fuel)
        }
    }
}

/// The folders a bookmark can be moved to: the walk from the top level.
pub open spec fn folder_choices(nodes: Seq<BookmarkNode>) -> Seq<ChoiceView> {
    let fs = folder_views(folder_rows(nodes));
    walk(fs, None, Seq::empty(), Seq::empty(), Set::empty(), Seq::empty(), 0, fs.len() + 1).1
}

/// The ids after one more is pushed.
proof fn lemma_id_set_push(v: Seq<String>, s: String)
    ensures
        id_set(v.push(s)) == id_set(v).insert(s@),
{
    let now = texts(v.push(s));
    let was = texts(v);
    assert(now =~= was.push(s@));
    assert forall|a: Seq<char>| now.contains(a) <==> (was.contains(a) || a == s@) by {
        if now.contains(a) {
            let j = choose|j: int| 0 <= j < now.len() && now[j] == a;
            if j < was.len() {
                assert(was[j] == a);
            }
        }
        if was.contains(a) {
            let j = choose|j: int| 0 <= j < was.len() && was[j] == a;
            assert(now[j] == a);
        }
        if a == s@ {
            assert(now[was.len() as int] == a);
        }
    }
    assert(id_set(v.push(s)) =~= id_set(v).insert(s@));
}

/// Whether an id was visited.
fn visited_contains(visited: &Vec<String>, id: &str) -> (r: bool)
    ensures
        r == id_set(visited@).contains(id@),
{
    let ghost t = texts(visited@);
    let mut i: usize = 0;
    while i < visited.len()
        invariant
            i <= visited@.len(),
            t == texts(visited@),
            forall|j: int| 0 <= j < i ==> t[j] != id@,
        decreases visited@.len() - i,
    {
        if str_eq(visited[i].as_str(), id) {
            assert(t[i as int] == id@);
            return true;
        }
        i = i + 1;
    }
    false
}

/// The parent id as a spec value.
pub open spec fn parent_view(p: Option<&str>) -> Option<Seq<char>> {
    match p {
        Some(s) => Some(s@),
        None => None,
    }
}

/// Walks the folders under `parent`, as `walk` says.
fn collect(
    folders: &Vec<FolderRow>,
    parent: Option<&str>,
    parent_label: &str,
    ancestors: &Vec<String>,
    visited: &mut Vec<String>,
    output: &mut Vec<BookmarkFolderChoice>,
    Ghost(fuel): Ghost<nat>,
)
    requires
        fuel >= unvisited(folder_views(folders@), id_set(old(visited)@)) + 1,
    ensures
        (id_set(final(visited)@), choice_views(final(output)@)) == walk(
            folder_views(folders@),
            parent_view(parent),
            parent_label@,
            texts(ancestors@),
            id_set(old(visited)@),
            choice_views(old(output)@),
            0,
            fuel,
        ),
        id_set(old(visited)@).subset_of(id_set(final(visited)@)),
    decreases fuel,
{
    let ghost fs = folder_views(folders@);
    let ghost p = parent_view(parent);
    let ghost anc = texts(ancestors@);
    let ghost v0 = id_set(visited@);
    let ghost o0 = choice_views(output@);
    let mut i: usize = 0;
    while i < folders.len()
        invariant
            i <= folders@.len(),
            fs == folder_views(folders@),
            p == parent_view(parent),
            anc == texts(ancestors@),
            fuel >= unvisited(fs, id_set(visited@)) + 1,
            v0.subset_of(id_set(visited@)),
            walk(fs, p, parent_label@, anc, v0, o0, 0, fuel) == walk(
                fs,
                p,
                parent_label@,
                anc,
                id_set(visited@),
                choice_views(output@),
                i as int,
                fuel,
            ),
        decreases folders@.len() - i,
    {
        let f = &folders[i];
        assert(fs[i as int] == folder_view(*f));
        let under = match (&f.parent, parent) {
            (Some(a), Some(b)) => str_eq(a.as_str(), b),
            (None, None) => true,
            _ => false,
        };
        let seen = visited_contains(visited, f.uuid.as_str());
        if !under || seen {
            i = i + 1;
        } else {
            let mut label = String::new();
            if parent_label.unicode_len() == 0 {
                push_str(&mut label, f.name.as_str());
            } else {
                push_str(&mut label, parent_label);
                push_str(&mut label, " / ");
                push_str(&mut label, f.name.as_str());
            }
            let ghost vbefore = visited@;
            let ghost obefore = output@;
            visited.push(f.uuid.clone());
            let mut child_ancestors = crate::text::copy_strings(ancestors);
            let choice = BookmarkFolderChoice {
                uuid: f.uuid.clone(),
                label: label.clone(),
                ancestors: crate::text::copy_strings(ancestors),
            };
            output.push(choice);
            child_ancestors.push(f.uuid.clone());
            proof {
                lemma_id_set_push(vbefore, f.uuid);
                assert(choice_views(output@) =~= choice_views(obefore).push((f.uuid@, label@, anc)));
                assert(texts(child_ancestors@) =~= anc.push(f.uuid@));
                lemma_unvisited_shrinks(fs, id_set(vbefore), id_set(visited@), i as int);
                assert(label@ == child_label(parent_label@, f.name@));
            }
            collect(
                folders,
                Some(f.uuid.as_str()),
                label.as_str(),
                &child_ancestors,
                visited,
                output,
                Ghost((fuel - 1) as nat),
            );
            proof {
                lemma_unvisited_shrinks(fs, id_set(vbefore), id_set(visited@), i as int);
            }
            i = i + 1;
        }
    }
}

/// The folders a bookmark can be moved to, each once, in the order of a
/// walk from the top level that offers each folder before the folders in
/// it; a folder reached again (through a repeated id or a cycle of parents)
/// is not offered again.
pub fn bookmark_folder_choices(nodes: &[BookmarkNode]) -> (r: Vec<BookmarkFolderChoice>)
    ensures
        choice_views(r@) == folder_choices(nodes@),
{
    let folders = bookmark_folder_rows(nodes);
    let ghost fs = folder_views(folders@);
    assert(fs =~= folder_views(folder_rows(nodes@)));
    let mut visited: Vec<String> = Vec::new();
    let mut output: Vec<BookmarkFolderChoice> = Vec::new();
    let ancestors: Vec<String> = Vec::new();
    proof {
        assert(id_set(visited@) =~= Set::<Seq<char>>::empty());
        assert(texts(ancestors@) =~= Seq::<Seq<char>>::empty());
        assert(choice_views(output@) =~= Seq::<ChoiceView>::empty());
        lemma_unvisited_at_most(fs, Set::empty());
    }
    collect(&folders, None, "", &ancestors, &mut visited, &mut output, Ghost((fs.len() + 1) as nat));
    proof {
        reveal_strlit("");
        assert(""@ =~= Seq::<char>::empty());
    }
    output
}

/// No more folders are unvisited than there are folders.
proof fn lemma_unvisited_at_most(fs: Seq<FolderView>, v: Set<Seq<char>>)
    ensures
        unvisited(fs, v) <= fs.len(),
    decreases fs.len(),
{
    if fs.len() > 0 {
        lemma_unvisited_at_most(fs.drop_last(), v);
    }
}

/// Whether every offered folder was visited and none was offered twice.
pub open spec fn offered_once(out: Seq<ChoiceView>, visited: Set<Seq<char>>) -> bool {
    &&& forall|j: int| 0 <= j < out.len() ==> visited.contains(#[trigger] out[j].0)
    &&& forall|a: int, b: int| 0 <= a < b < out.len() ==> #[trigger] out[a].0 != #[trigger] out[b].0
}

/// The walk keeps every folder offered at most once.
proof fn lemma_walk_offers_once(
    fs: Seq<FolderView>,
    parent: Option<Seq<char>>,
    parent_label: Seq<char>,
    ancestors: Seq<Seq<char>>,
    visited: Set<Seq<char>>,
    out: Seq<ChoiceView>,
    i: int,
    fuel: nat,
)
    requires
        offered_once(out, visited),
    ensures
        ({
            let r = walk(fs, parent, parent_label, ancestors, visited, out, i, fuel);
            offered_once(r.1, r.0)
        }),
    decreases fuel, fs.len() - i,
{
    if fuel == 0 || i < 0 || i >= fs.len() {
    } else {
        let f = fs[i];
        if f.2 != parent || visited.contains(f.0) {
            lemma_walk_offers_once(fs, parent, parent_label, ancestors, visited, out, i + 1, fuel);
        } else {
            let label = child_label(parent_label, f.1);
            let v1 = visited.insert(f.0);
            let o1 = out.push((f.0, label, ancestors));
            assert(offered_once(o1, v1)) by {
                assert forall|a: int, b: int| 0 <= a < b < o1.len() implies #[trigger] o1[a].0 != #[trigger] o1[b].0 by {
                    if b == out.len() {
                        assert(visited.contains(out[a].0));
                    } else {
                        assert(o1[a] == out[a] && o1[b] == out[b]);
                    }
                }
                assert forall|j: int| 0 <= j < o1.len() implies v1.contains(#[trigger] o1[j].0) by {
                    if j < out.len() {
                        assert(o1[j] == out[j]);
                    }
                }
            }
            lemma_walk_offers_once(fs, Some(f.0), label, ancestors.push(f.0), v1, o1, 0, (fuel - 1) as nat);
            let inner = walk(fs, Some(f.0), label, ancestors.push(f.0), v1, o1, 0, (fuel - 1) as nat);
            lemma_walk_offers_once(fs, parent, parent_label, ancestors, inner.0, inner.1, i + 1, fuel);
        }
    }
}

/// No folder is offered twice as a place to move a bookmark to.
pub proof fn lemma_folder_choices_offer_each_folder_once(nodes: Seq<BookmarkNode>)
    ensures
        forall|a: int, b: int| 0 <= a < b < folder_choices(nodes).len() ==> #[trigger] folder_choices(nodes)[a].0
            != #[trigger] folder_choices(nodes)[b].0,
{
    let fs = folder_views(folder_rows(nodes));
    lemma_walk_offers_once(fs, None, Seq::empty(), Seq::empty(), Set::empty(), Seq::empty(), 0, fs.len() + 1);
}

/// An optional folder id as characters; `None` stands for the top of the
/// tree.
pub open spec fn target_view(t: Option<String>) -> Option<Seq<char>> {
    match t {
        Some(u) => Some(u@),
        None => None,
    }
}

/// Move targets as characters.
pub open spec fn targets_view(ts: Seq<Option<String>>) -> Seq<Option<Seq<char>>> {
    ts.map_values(|t: Option<String>| target_view(t))
}

/// Whether a folder lies in the folder `id` or is that folder.
pub open spec fn within(choice: BookmarkFolderChoice, id: Seq<char>) -> bool {
    choice.uuid@ == id || exists|k: int| 0 <= k < choice.ancestors@.len() && (#[trigger] choice.ancestors@[k])@ == id
}

/// The folders, in order, that `keep` lets through, as move targets.
pub open spec fn kept_targets(
    folders: Seq<BookmarkFolderChoice>,
    keep: spec_fn(BookmarkFolderChoice) -> bool,
) -> Seq<Option<Seq<char>>>
    decreases folders.len(),
{
    if folders.len() == 0 {
        Seq::empty()
    } else {
        let rest = kept_targets(folders.drop_last(), keep);
        if keep(folders.last()) {
            rest.push(Some(folders.last().uuid@))
        } else {
            rest
        }
    }
}

/// Where a folder can be moved: the top of the tree when it is inside
/// another folder, then every folder that is neither it nor inside it, in
/// order.
pub open spec fn folder_targets(folder: Seq<char>, has_parent: bool, folders: Seq<BookmarkFolderChoice>) -> Seq<Option<Seq<char>>> {
    (if has_parent { seq![None] } else { Seq::empty() }) + kept_targets(
        folders,
        |c: BookmarkFolderChoice| !within(c, folder),
    )
}

/// Where a bookmark in `folder` (`None` at the top) can be moved: the top
/// of the tree when it is in a folder, then every other folder, in order.
pub open spec fn entry_targets(folder: Option<Seq<char>>, folders: Seq<BookmarkFolderChoice>) -> Seq<Option<Seq<char>>> {
    (if folder is Some { seq![None] } else { Seq::empty() }) + kept_targets(
        folders,
        |c: BookmarkFolderChoice| Some(c.uuid@) != folder,
    )
}

fn is_within(choice: &BookmarkFolderChoice, id: &str) -> (r: bool)
    ensures
        r == within(*choice, id@),
{
    if str_eq(choice.uuid.as_str(), id) {
        return true;
    }
    let mut k: usize = 0;
    while k < choice.ancestors.len()
        invariant
            k <= choice.ancestors@.len(),
            choice.uuid@ != id@,
            forall|j: int| 0 <= j < k ==> (#[trigger] choice.ancestors@[j])@ != id@,
        decreases choice.ancestors@.len() - k,
    {
        if str_eq(choice.ancestors[k].as_str(), id) {
            return true;
        }
        k = k + 1;
    }
    false
}

/// The places a folder's menu offers to move it to.
pub fn folder_move_targets(folder_uuid: &str, has_parent: bool, folders: &[BookmarkFolderChoice]) -> (r: Vec<Option<String>>)
    ensures
        targets_view(r@) == folder_targets(folder_uuid@, has_parent, folders@),
{
    let ghost keep = |c: BookmarkFolderChoice| !within(c, folder_uuid@);
    let mut r: Vec<Option<String>> = Vec::new();
    if has_parent {
        r.push(None);
    }
    let ghost head = targets_view(r@);
    let mut i: usize = 0;
    assert(folders@.subrange(0, 0) =~= Seq::<BookmarkFolderChoice>::empty());
    assert(targets_view(r@) =~= head + kept_targets(folders@.subrange(0, 0), keep));
    while i < folders.len()
        invariant
            i <= folders@.len(),
            keep == (|c: BookmarkFolderChoice| !within(c, folder_uuid@)),
            head == (if has_parent { seq![None] } else { Seq::<Option<Seq<char>>>::empty() }),
            targets_view(r@) == head + kept_targets(folders@.subrange(0, i as int), keep),
        decreases folders@.len() - i,
    {
        let ghost before = r@;
        assert(folders@.subrange(0, i + 1).drop_last() =~= folders@.subrange(0, i as int));
        if !is_within(&folders[i], folder_uuid) {
            r.push(Some(folders[i].uuid.clone()));
            assert(targets_view(r@) =~= targets_view(before).push(Some(folders@[i as int].uuid@)));
        }
        i = i + 1;
    }
    assert(folders@.subrange(0, folders@.len() as int) =~= folders@);
    r
}

/// The places a bookmark's menu offers to move it to, for a bookmark in
/// `folder_uuid` (`None` at the top of the tree).
pub fn entry_move_targets(folder_uuid: Option<&str>, folders: &[BookmarkFolderChoice]) -> (r: Vec<Option<String>>)
    ensures
        targets_view(r@) == entry_targets(
            match folder_uuid {
                Some(f) => Some(f@),
                None => None,
            },
            folders@,
        ),
{
    let ghost folder = match folder_uuid {
        Some(f) => Some(f@),
        None => None,
    };
    let ghost keep = |c: BookmarkFolderChoice| Some(c.uuid@) != folder;
    let mut r: Vec<Option<String>> = Vec::new();
    if folder_uuid.is_some() {
        r.push(None);
    }
    let ghost head = targets_view(r@);
    let mut i: usize = 0;
    assert(folders@.subrange(0, 0) =~= Seq::<BookmarkFolderChoice>::empty());
    assert(targets_view(r@) =~= head + kept_targets(folders@.subrange(0, 0), keep));
    while i < folders.len()
        invariant
            i <= folders@.len(),
            keep == (|c: BookmarkFolderChoice| Some(c.uuid@) != folder),
            folder == match folder_uuid {
                Some(f) => Some(f@),
                None => None::<Seq<char>>,
            },
            head == (if folder is Some { seq![None] } else { Seq::<Option<Seq<char>>>::empty() }),
            targets_view(r@) == head + kept_targets(folders@.subrange(0, i as int), keep),
        decreases folders@.len() - i,
    {
        let ghost before = r@;
        assert(folders@.subrange(0, i + 1).drop_last() =~= folders@.subrange(0, i as int));
        let same = match folder_uuid {
            Some(f) => str_eq(folders[i].uuid.as_str(), f),
            None => false,
        };
        if !same {
            r.push(Some(folders[i].uuid.clone()));
            assert(targets_view(r@) =~= targets_view(before).push(Some(folders@[i as int].uuid@)));
        }
        i = i + 1;
    }
    assert(folders@.subrange(0, folders@.len() as int) =~= folders@);
    r
}

/// How many folders among `rows` lie directly in the folder `id`.
pub open spec fn child_folders(rows: Seq<FolderRow>, id: Seq<char>) -> nat
    decreases rows.len(),
{
    if rows.len() == 0 {
        0
    } else {
        child_folders(rows.drop_last(), id) + if target_view(rows.last().parent) == Some(id) {
            1nat
        } else {
            0nat
        }
    }
}

/// What a folder row shows of its contents: how many rows it holds (its
/// folders, its bookmarks, and the rows of its smart folder, `smart`), and
/// whether it is empty (holds nothing and is not a smart folder).
pub fn folder_contents(folder: &FolderRow, rows: &[FolderRow], smart: Option<usize>) -> (r: (usize, bool))
    requires
        rows@.len() + folder.children@.len() + match smart {
            Some(n) => n as nat,
            None => 0nat,
        } <= usize::MAX,
    ensures
        r.0 == child_folders(rows@, folder.uuid@) + folder.children@.len() + match smart {
            Some(n) => n as nat,
            None => 0nat,
        },
        r.1 == (r.0 == 0 && smart is None),
{
    let mut count: usize = 0;
    let mut i: usize = 0;
    while i < rows.len()
        invariant
            i <= rows@.len(),
            count == child_folders(rows@.subrange(0, i as int), folder.uuid@),
            count <= i,
        decreases rows@.len() - i,
    {
        assert(rows@.subrange(0, i + 1).drop_last() =~= rows@.subrange(0, i as int));
        let inside = match &rows[i].parent {
            Some(p) => str_eq(p.as_str(), folder.uuid.as_str()),
            None => false,
        };
        if inside {
            count = count + 1;
        }
        i = i + 1;
    }
    assert(rows@.subrange(0, rows@.len() as int) =~= rows@);
    let smart_count = match smart {
        Some(n) => n,
        None => 0,
    };
    let total = count + folder.children.len() + smart_count;
    (total, total == 0 && smart.is_none())
}

/// The title a bookmark row shows: its page's title, or its URL when the
/// page has none.
pub fn entry_title(title: &str, url: &str) -> (r: String)
    ensures
        r@ == if title@.len() == 0 {
            url@
        } else {
            title@
        },
{
    if title.is_empty() {
        url.to_owned()
    } else {
        title.to_owned()
    }
}

} // verus!
