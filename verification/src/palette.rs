//! The command palette's list of commands and its row styling.
use vstd::prelude::*;
use crate::text::str_eq;

verus! {

/// One command as the palette lists it.
#[derive(Clone, Copy, Debug, PartialEq, Eq)]
pub struct PaletteEntry {
    pub id: &'static str,
    pub name: &'static str,
    pub shortcut: &'static str,
}

/// Whether `e` lists the command `(id, name, shortcut)`.
pub open spec fn lists(e: PaletteEntry, c: (&'static str, &'static str, &'static str)) -> bool {
    e.id@ == c.0@ && e.name@ == c.1@ && e.shortcut@ == c.2@
}

/// The palette's entries for the commands `(id, name, shortcut)`, in order.
pub fn command_list(commands: &[(&'static str, &'static str, &'static str)]) -> (r: Vec<PaletteEntry>)
    ensures
        r@.len() == commands@.len(),
        forall|i: int| 0 <= i < r@.len() ==> lists(#[trigger] r@[i], commands@[i]),
{
    let mut r: Vec<PaletteEntry> = Vec::new();
    let mut i: usize = 0;
    while i < commands.len()
        invariant
            i <= commands@.len(),
            r@.len() == i,
            forall|j: int| 0 <= j < i ==> lists(#[trigger] r@[j], commands@[j]),
        decreases commands@.len() - i,
    {
        let (id, name, shortcut) = commands[i];
        r.push(PaletteEntry { id, name, shortcut });
        i = i + 1;
    }
    r
}

/// The position of the first entry with this id.
pub open spec fn first_with_id(entries: Seq<PaletteEntry>, id: Seq<char>) -> Option<int> {
    if exists|k: int| 0 <= k < entries.len() && entries[k].id@ == id && forall|j: int| 0 <= j < k ==> entries[j].id@ != id {
        Some(choose|k: int| 0 <= k < entries.len() && entries[k].id@ == id && forall|j: int| 0 <= j < k ==> entries[j].id@ != id)
    } else {
        None
    }
}

/// The command a menu id selects: the first entry with that id.
pub fn match_command(entries: &[PaletteEntry], id: &str) -> (r: Option<PaletteEntry>)
    ensures
        match first_with_id(entries@, id@) {
            None => r is None,
            Some(k) => r == Some(entries@[k]),
        },
{
    let mut i: usize = 0;
    while i < entries.len()
        invariant
            i <= entries@.len(),
            forall|j: int| 0 <= j < i ==> entries@[j].id@ != id@,
        decreases entries@.len() - i,
    {
        if str_eq(entries[i].id, id) {
            let ghost k = choose|k: int| 0 <= k < entries@.len() && entries@[k].id@ == id@ && forall|j: int| 0 <= j < k ==> entries@[j].id@ != id@;
            proof {
                assert(0 <= i < entries@.len() && entries@[i as int].id@ == id@ && forall|j: int| 0 <= j < i ==> entries@[j].id@ != id@);
                if k < i {
                    assert(entries@[k].id@ != id@);
                } else if k > i {
                    assert(entries@[i as int].id@ != id@);
                }
            }
            return Some(entries[i]);
        }
        i = i + 1;
    }
    None
}

/// Classes of a result row of the command bar; the selected one is filled
/// with the selection colour across the whole row.
pub open spec fn result_item_class_text(is_selected: bool) -> Seq<char> {
    if is_selected {
        "flex w-full cursor-pointer items-center justify-between bg-sidebar-primary px-3 py-2 text-sidebar-primary-foreground"@
    } else {
        "flex w-full cursor-pointer items-center justify-between px-3 py-2 hover:bg-white/5"@
    }
}

/// Classes of a result row of the command bar.
pub fn result_item_class(is_selected: bool) -> (r: &'static str)
    ensures
        r@ == result_item_class_text(is_selected),
{
    if is_selected {
        "flex w-full cursor-pointer items-center justify-between bg-sidebar-primary px-3 py-2 text-sidebar-primary-foreground"
    } else {
        "flex w-full cursor-pointer items-center justify-between px-3 py-2 hover:bg-white/5"
    }
}

} // verus!
