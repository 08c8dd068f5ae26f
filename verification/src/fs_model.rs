//! A folder tree as plain data: what the engine reads of the filesystem when
//! it flattens an extracted archive, searches for an executable breadth
//! first, or collects start-menu shortcut files.

use vstd::prelude::*;
use crate::text::{ends_with, has_substring, lower_of};

verus! {

/// One directory entry, with the absolute path it was listed under.
#[derive(Debug)]
pub enum FsEntry {
    File { name: String, path: String },
    Folder { name: String, path: String, entries: Vec<FsEntry> },
}

impl FsEntry {
    pub open spec fn name(self) -> Seq<char> {
        match self {
            FsEntry::File { name, .. } => name@,
            FsEntry::Folder { name, .. } => name@,
        }
    }

    pub open spec fn path(self) -> Seq<char> {
        match self {
            FsEntry::File { path, .. } => path@,
            FsEntry::Folder { path, .. } => path@,
        }
    }

    pub open spec fn is_folder(self) -> bool {
        self is Folder
    }

    /// The entries directly inside this entry; a file has none.
    pub open spec fn children(self) -> Seq<FsEntry> {
        match self {
            FsEntry::File { .. } => Seq::empty(),
            FsEntry::Folder { entries, .. } => entries@,
        }
    }
}

/// Number of entries in the tree rooted at `e`, this entry included.
pub open spec fn entry_size(e: FsEntry) -> nat
    decreases e, 1int, 0int,
{
    match e {
        FsEntry::File { .. } => 1,
        FsEntry::Folder { entries, .. } => 1 + vec_size(entries, 0),
    }
}

/// Number of entries in the trees rooted at `entries[k..]`.
pub open spec fn vec_size(entries: Vec<FsEntry>, k: int) -> nat
    decreases entries, 0int, entries.len() - k,
{
    if k < 0 || k >= entries.len() {
        0
    } else {
        entry_size(entries[k]) + vec_size(entries, k + 1)
    }
}

/// Number of entries in the trees rooted at the elements of `s`.
pub open spec fn seq_size(s: Seq<FsEntry>) -> nat
    decreases s.len(),
{
    if s.len() == 0 {
        0
    } else {
        entry_size(s[0]) + seq_size(s.drop_first())
    }
}

proof fn lemma_vec_size_is_seq_size(entries: Vec<FsEntry>, k: int)
    requires
        0 <= k <= entries.len(),
    ensures
        vec_size(entries, k) == seq_size(entries@.skip(k)),
    decreases entries.len() - k,
{
    if k == entries.len() {
        assert(entries@.skip(k) =~= Seq::<FsEntry>::empty());
    } else {
        lemma_vec_size_is_seq_size(entries, k + 1);
        assert(entries@.skip(k)[0] == entries@[k]);
        assert(entries@.skip(k).drop_first() =~= entries@.skip(k + 1));
    }
}

pub proof fn lemma_entry_size_children(e: FsEntry)
    ensures
        entry_size(e) == 1 + seq_size(e.children()),
{
    match e {
        FsEntry::File { .. } => {
            assert(seq_size(Seq::<FsEntry>::empty()) == 0);
        },
        FsEntry::Folder { entries, .. } => {
            lemma_vec_size_is_seq_size(entries, 0);
            assert(entries@.skip(0) =~= entries@);
        },
    }
}

pub proof fn lemma_seq_size_concat(a: Seq<FsEntry>, b: Seq<FsEntry>)
    ensures
        seq_size(a + b) == seq_size(a) + seq_size(b),
    decreases a.len(),
{
    if a.len() == 0 {
        assert(a + b =~= b);
    } else {
        lemma_seq_size_concat(a.drop_first(), b);
        assert((a + b).drop_first() =~= a.drop_first() + b);
        assert((a + b)[0] == a[0]);
    }
}

/// The folders among `s`, in order.
pub open spec fn folders_of(s: Seq<FsEntry>) -> Seq<FsEntry> {
    s.filter(|e: FsEntry| e.is_folder())
}

pub proof fn lemma_filter_size(s: Seq<FsEntry>, pred: spec_fn(FsEntry) -> bool)
    ensures
        seq_size(s.filter(pred)) <= seq_size(s),
    decreases s.len(),
{
    reveal(Seq::filter);
    if s.len() > 0 {
        let a = s.drop_last();
        let last = s.last();
        lemma_filter_size(a, pred);
        assert(a + seq![last] =~= s);
        lemma_seq_size_concat(a, seq![last]);
        assert(seq![last].drop_first() =~= Seq::<FsEntry>::empty());
        assert(seq![last][0] == last);
        assert(seq_size(Seq::<FsEntry>::empty()) == 0);
        assert(seq_size(seq![last]) == entry_size(last));
        if pred(last) {
            assert(a.filter(pred) + seq![last] =~= a.filter(pred).push(last));
            lemma_seq_size_concat(a.filter(pred), seq![last]);
        }
    }
}

/// Entries directly inside each element of `s`, in order.
pub open spec fn children_of_all(s: Seq<FsEntry>) -> Seq<FsEntry>
    decreases s.len(),
{
    if s.len() == 0 {
        Seq::empty()
    } else {
        s[0].children() + children_of_all(s.drop_first())
    }
}

proof fn lemma_children_of_all_size(s: Seq<FsEntry>)
    ensures
        s.len() + seq_size(children_of_all(s)) == seq_size(s),
    decreases s.len(),
{
    if s.len() > 0 {
        lemma_children_of_all_size(s.drop_first());
        lemma_seq_size_concat(s[0].children(), children_of_all(s.drop_first()));
        lemma_entry_size_children(s[0]);
    }
}

/// Every entry a breadth-first walk of `queue` visits, in visitation order:
/// the items of the front folder, then those of the rest of the queue and of
/// the front folder's subfolders, nearest first.
pub open spec fn bfs_items(queue: Seq<FsEntry>) -> Seq<FsEntry>
    decreases seq_size(queue), queue.len(),
    via bfs_items_decreases
{
    if queue.len() == 0 {
        Seq::empty()
    } else {
        let items = queue[0].children();
        items + bfs_items(queue.drop_first() + folders_of(items))
    }
}

#[via_fn]
proof fn bfs_items_decreases(queue: Seq<FsEntry>) {
    if queue.len() > 0 {
        let items = queue[0].children();
        let rest = queue.drop_first() + folders_of(items);
        lemma_seq_size_concat(queue.drop_first(), folders_of(items));
        lemma_filter_size(items, |e: FsEntry| e.is_folder());
        lemma_entry_size_children(queue[0]);
        assert(seq![queue[0]] + queue.drop_first() =~= queue);
        lemma_seq_size_concat(seq![queue[0]], queue.drop_first());
        assert(seq![queue[0]].drop_first() =~= Seq::<FsEntry>::empty());
        assert(seq_size(seq![queue[0]]) == entry_size(queue[0]));
        assert(seq_size(rest) < seq_size(queue));
    }
}

/// An exact match: the lowered file name is precisely `<name>.exe`.
pub open spec fn is_exact_exe(e: FsEntry, exact: Seq<char>) -> bool {
    lower_of(e.name()) == exact
}

/// A loose match: the lowered file name shows the package name and ends in
/// ".exe".
pub open spec fn is_loose_exe(e: FsEntry, name_lower: Seq<char>) -> bool {
    ends_with(lower_of(e.name()), ".exe"@) && has_substring(lower_of(e.name()), name_lower)
}

/// The first entry of `items` that is an exact `<name>.exe` match.
pub open spec fn first_exact(items: Seq<FsEntry>, exact: Seq<char>) -> Option<FsEntry>
    decreases items.len(),
{
    if items.len() == 0 {
        None
    } else if is_exact_exe(items[0], exact) {
        Some(items[0])
    } else {
        first_exact(items.drop_first(), exact)
    }
}

/// The first entry of `items` that is a loose match.
pub open spec fn first_loose(items: Seq<FsEntry>, name_lower: Seq<char>) -> Option<FsEntry>
    decreases items.len(),
{
    if items.len() == 0 {
        None
    } else if is_loose_exe(items[0], name_lower) {
        Some(items[0])
    } else {
        first_loose(items.drop_first(), name_lower)
    }
}

/// What the breadth-first executable search yields over a visitation order:
/// the first exact match if one exists anywhere, else the first loose match,
/// else nothing.
pub open spec fn bfs_search_result(items: Seq<FsEntry>, exact: Seq<char>, name_lower: Seq<char>) -> Option<Seq<char>> {
    match first_exact(items, exact) {
        Some(e) => Some(e.path()),
        None => match first_loose(items, name_lower) {
            Some(e) => Some(e.path()),
            None => None,
        },
    }
}

pub proof fn lemma_first_exact_append(a: Seq<FsEntry>, b: Seq<FsEntry>, exact: Seq<char>)
    ensures
        first_exact(a + b, exact) == (match first_exact(a, exact) {
            Some(e) => Some(e),
            None => first_exact(b, exact),
        }),
    decreases a.len(),
{
    if a.len() == 0 {
        assert(a + b =~= b);
    } else {
        lemma_first_exact_append(a.drop_first(), b, exact);
        assert((a + b)[0] == a[0]);
        assert((a + b).drop_first() =~= a.drop_first() + b);
    }
}

pub proof fn lemma_first_loose_append(a: Seq<FsEntry>, b: Seq<FsEntry>, name_lower: Seq<char>)
    ensures
        first_loose(a + b, name_lower) == (match first_loose(a, name_lower) {
            Some(e) => Some(e),
            None => first_loose(b, name_lower),
        }),
    decreases a.len(),
{
    if a.len() == 0 {
        assert(a + b =~= b);
    } else {
        lemma_first_loose_append(a.drop_first(), b, name_lower);
        assert((a + b)[0] == a[0]);
        assert((a + b).drop_first() =~= a.drop_first() + b);
    }
}

/// The breadth-first executable search returns an exact `<name>.exe` match
/// whenever one exists anywhere in the visitation order, wherever a looser
/// "contains the name" match may appear.
pub proof fn lemma_bfs_prefers_exact(
    items: Seq<FsEntry>,
    exact: Seq<char>,
    name_lower: Seq<char>,
    i: int,
)
    requires
        0 <= i < items.len(),
        is_exact_exe(items[i], exact),
    ensures
        first_exact(items, exact) matches Some(e) && is_exact_exe(e, exact)
            && bfs_search_result(items, exact, name_lower) == Some(e.path()),
    decreases items.len(),
{
    if !is_exact_exe(items[0], exact) {
        lemma_bfs_prefers_exact(items.drop_first(), exact, name_lower, i - 1);
    }
}

pub(crate) fn entry_name_ref(e: &FsEntry) -> (r: &String)
    ensures
        r@ == e.name(),
{
    match e {
        FsEntry::File { name, .. } => name,
        FsEntry::Folder { name, .. } => name,
    }
}

pub(crate) fn entry_path_ref(e: &FsEntry) -> (r: &String)
    ensures
        r@ == e.path(),
{
    match e {
        FsEntry::File { path, .. } => path,
        FsEntry::Folder { path, .. } => path,
    }
}

/// The repeated flattening of superfluous nesting: while a folder holds
/// exactly one entry and that entry is itself a folder, descend into it.
pub open spec fn flatten_entry(e: FsEntry) -> FsEntry
    decreases e,
{
    match e {
        FsEntry::Folder { entries, .. } => {
            if entries.len() == 1 && entries[0].is_folder() {
                flatten_entry(entries[0])
            } else {
                e
            }
        },
        FsEntry::File { .. } => e,
    }
}

/// Zip flattening is idempotent: a folder that is already flat (zero or two
/// or more top-level entries, or a single file) flattens to itself, so
/// flattening twice is the same as flattening once.
pub proof fn lemma_flatten_idempotent(e: FsEntry)
    ensures
        flatten_entry(flatten_entry(e)) == flatten_entry(e),
    decreases e,
{
    match e {
        FsEntry::Folder { entries, .. } => {
            if entries.len() == 1 && entries[0].is_folder() {
                lemma_flatten_idempotent(entries[0]);
            }
        },
        FsEntry::File { .. } => {},
    }
}

/// The `.lnk` files in the tree rooted at `e`, depth first, as full paths.
pub open spec fn shortcut_files_of(e: FsEntry) -> Seq<Seq<char>>
    decreases e, 1int, 0int,
{
    match e {
        FsEntry::File { name, path } => if ends_with(name@, ".lnk"@) {
            seq![path@]
        } else {
            Seq::empty()
        },
        FsEntry::Folder { entries, .. } => shortcut_files_of_list(entries, 0),
    }
}

/// The `.lnk` files in the trees rooted at `entries[k..]`.
pub open spec fn shortcut_files_of_list(entries: Vec<FsEntry>, k: int) -> Seq<Seq<char>>
    decreases entries, 0int, entries.len() - k,
{
    if k < 0 || k >= entries.len() {
        Seq::empty()
    } else {
        shortcut_files_of(entries[k]) + shortcut_files_of_list(entries, k + 1)
    }
}

} // verus!
