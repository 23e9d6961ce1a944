//! Scan decisions shared by the category scanners.
//!
//! Walking the disk, reading metadata and running tools is the application's
//! work; it hands what it finds to the functions here, which decide what
//! becomes an item, how it is labelled and what the UI is told.
pub mod caches;
pub mod dev_artifacts;
pub mod duplicates;
pub mod icloud;
pub mod large;
pub mod logs;
pub mod trash_cat;

use vstd::prelude::*;
use crate::config::{Matchers, strs};
use crate::event::{DiskInfo, WorkerMsg};
use crate::fs_util::{home_dir, real_size, real_size_spec};
use crate::scan::icloud::EntryKind;
use std::collections::HashSet;
use crate::model::{Category, RankKey, SafetyTier, ScanItem, arranged, is_rank_order, sort_desc, sum_bytes};
use crate::paths::{comps, components, file_name, file_name_of, lemma_map_comps, parent_name, parent_name_of, relative_text, relative_to};
use crate::text::{chars_of, lines, lines_spec, parse_u64, parse_u64_spec, push_chars, push_str, string_from, words, words_spec};
use crate::model::{chars_equal, str_equal};

verus! {

// ---------------------------------------------------------------------------
// Concurrency budget
// ---------------------------------------------------------------------------

/// Concurrency budget for a scan run.
#[derive(Debug, Clone, Copy, PartialEq, Eq, Structural)]
pub struct ScanLimits {
    pub category_workers: usize,
    pub walk_threads: usize,
    pub hash_threads: usize,
}

pub open spec fn clamp_int(x: int, lo: int, hi: int) -> int {
    if x < lo {
        lo
    } else if x > hi {
        hi
    } else {
        x
    }
}

/// The budget for `count` categories on `cpus` processors (at least one):
/// between two and four category workers (a quarter of the processors, never
/// more than there are categories), one or two walker threads per worker, and
/// the remaining processors (at least two) for hashing.
pub open spec fn limits_spec(count: int, cpus_reported: int) -> ScanLimits {
    let cpus = if cpus_reported < 1 {
        1
    } else {
        cpus_reported
    };
    let wanted = clamp_int(cpus / 4, 2, 4);
    let cw = if count < 1 {
        1
    } else if count < wanted {
        count
    } else {
        wanted
    };
    let wt = clamp_int(cpus / (cw * 2), 1, 2);
    let rest = if cpus - cw - 1 > 0 {
        cpus - cw - 1
    } else {
        0
    };
    let ht = if cpus <= 2 {
        1
    } else if rest < 2 {
        2
    } else {
        rest
    };
    ScanLimits { category_workers: cw as usize, walk_threads: wt as usize, hash_threads: ht as usize }
}

impl ScanLimits {
    pub fn for_cpus(category_count: usize, cpus: usize) -> (r: Self)
        ensures
            r == limits_spec(category_count as int, cpus as int),
    {
        let cpus = if cpus < 1 {
            1
        } else {
            cpus
        };
        let q = cpus / 4;
        let wanted: usize = if q < 2 {
            2
        } else if q > 4 {
            4
        } else {
            q
        };
        let count = if category_count < 1 {
            1
        } else {
            category_count
        };
        let category_workers = if count < wanted {
            count
        } else {
            wanted
        };
        let w = cpus / (category_workers * 2);
        let walk_threads: usize = if w < 1 {
            1
        } else if w > 2 {
            2
        } else {
            w
        };
        let hash_threads: usize = if cpus <= 2 {
            1
        } else {
            let rest = if cpus > category_workers + 1 {
                cpus - category_workers - 1
            } else {
                0
            };
            if rest < 2 {
                2
            } else {
                rest
            }
        };
        ScanLimits { category_workers, walk_threads, hash_threads }
    }

    /// The budget for the processors the system reports (four when it
    /// reports none).
    pub fn auto(category_count: usize, available_cpus: Option<usize>) -> (r: Self)
        ensures
            r == limits_spec(
                category_count as int,
                match available_cpus {
                    Some(n) => n as int,
                    None => 4,
                },
            ),
    {
        let cpus = match available_cpus {
            Some(n) => n,
            None => 4,
        };
        ScanLimits::for_cpus(category_count, cpus)
    }
}

// ---------------------------------------------------------------------------
// Labels and items
// ---------------------------------------------------------------------------

/// Suffixes that name a whole category rather than one item.
pub open spec fn generic_suffix(s: Seq<char>) -> bool {
    s == "large file"@ || s == "cache"@ || s == "logs"@
}

pub fn is_generic_category_suffix(suffix: &str) -> (r: bool)
    ensures
        r == generic_suffix(suffix@),
{
    str_equal(suffix, "large file") || str_equal(suffix, "cache") || str_equal(suffix, "logs")
}

/// The display label of `path` (for home directory `home`): with no suffix,
/// the parent folder's name and the path relative to home; the relative path
/// alone when the suffix is the file's own name, the path is a file, or the
/// suffix is a generic category word; else the relative path and the suffix.
pub open spec fn label_spec(path: Seq<char>, suffix: Seq<char>, home: Seq<char>, is_file: bool) -> Seq<char> {
    let rel = relative_to(path, home);
    let fname = match file_name_of(path) {
        Some(n) => n,
        None => Seq::empty(),
    };
    if suffix.len() == 0 {
        let parent = match parent_name_of(path) {
            Some(n) => n,
            None => "unknown"@,
        };
        parent + " \u{2014} "@ + rel
    } else if suffix == fname || is_file || generic_suffix(suffix) {
        rel
    } else {
        rel + " \u{2014} "@ + suffix
    }
}

/// Builds a display label from a path, for the given home directory.
pub fn label_for_in(path: &str, suffix: &str, home: &str, is_file: bool) -> (r: String)
    ensures
        r@ == label_spec(path@, suffix@, home@, is_file),
{
    let p = chars_of(path);
    let rel = relative_text(&p, &chars_of(home));
    let sfx = chars_of(suffix);
    let mut s = String::new();
    if sfx.len() == 0 {
        match parent_name(&p) {
            Some(n) => push_chars(&mut s, &n),
            None => push_str(&mut s, "unknown"),
        }
        push_str(&mut s, " \u{2014} ");
        push_chars(&mut s, &rel);
        return s;
    }
    let same_name = match file_name(&p) {
        Some(n) => chars_equal(&sfx, &n),
        None => sfx.len() == 0,
    };
    proof {
        if file_name_of(path@) is None {
            assert(Seq::<char>::empty().len() == 0);
        }
    }
    push_chars(&mut s, &rel);
    if same_name || is_file || is_generic_category_suffix(suffix) {
        return s;
    }
    push_str(&mut s, " \u{2014} ");
    push_str(&mut s, suffix);
    s
}

/// Builds a display label from a path, relative to the user's home directory.
/// `is_file` tells whether the path is a regular file on disk.
pub fn label_for(path: &str, suffix: &str, is_file: bool) -> (r: String)
    ensures
        exists|home: Seq<char>| r@ == label_spec(path@, suffix@, home, is_file),
{
    let home = home_dir();
    label_for_in(path, suffix, home.as_str(), is_file)
}

/// A scan item for a directory hit, with its note.
pub fn item_from_dir(path: String, label: String, bytes: u64, tier: SafetyTier, category: Category, note: &str) -> (r: ScanItem)
    ensures
        r == (ScanItem {
            path: path,
            label: label,
            real_bytes: bytes,
            tier: tier,
            category: category,
            last_access_days: 0,
            regen_note: r.regen_note,
            selected: false,
            group_id: None,
            is_keeper: false,
            action: crate::model::ItemAction::Delete,
        }),
        r.regen_note@ == note@,
{
    ScanItem::new(path, label, bytes, tier, category).with_note(note)
}

// ---------------------------------------------------------------------------
// Paths already claimed by a scan
// ---------------------------------------------------------------------------

/// Whether a path equal to `p` (component by component) is among `ps`.
pub open spec fn holds_path(ps: Seq<Seq<Seq<char>>>, p: Seq<char>) -> bool {
    exists|k: int| 0 <= k < ps.len() && #[trigger] ps[k] == comps(p)
}

/// The paths a scan has claimed, each once: the first scanner thread to
/// reach a directory reports it, later ones skip it. Paths are equal when
/// their components are, as `Path` equality has it; they are kept as
/// component lists in a list searched in order, because vstd models hash
/// tables only for keys of integer type, and a component list is not one.
pub struct PathSet {
    entries: Vec<Vec<Vec<char>>>,
}

impl PathSet {
    /// The claimed paths, as component lists.
    pub closed spec fn claimed(self) -> Seq<Seq<Seq<char>>> {
        self.entries@.map_values(|e: Vec<Vec<char>>| e@.map_values(|c: Vec<char>| c@))
    }

    /// No path is claimed twice.
    pub closed spec fn wf(self) -> bool {
        forall|i: int, j: int| 0 <= i < j < self.claimed().len() ==> self.claimed()[i] != self.claimed()[j]
    }

    pub fn new() -> (r: Self)
        ensures
            r.wf(),
            r.claimed().len() == 0,
    {
        let r = PathSet { entries: Vec::new() };
        assert(r.claimed() =~= Seq::<Seq<Seq<char>>>::empty());
        r
    }

    /// Claims `p`; false when an equal path was claimed before.
    pub fn insert(&mut self, p: &str) -> (r: bool)
        requires
            old(self).wf(),
        ensures
            final(self).wf(),
            r == !holds_path(old(self).claimed(), p@),
            final(self).claimed() == (if r {
                old(self).claimed().push(comps(p@))
            } else {
                old(self).claimed()
            }),
    {
        let c = components(&chars_of(p));
        proof {
            lemma_map_comps(c@, comps(p@));
        }
        let ghost old_claimed = self.claimed();
        for i in 0..self.entries.len()
            invariant
                self.claimed() == old_claimed,
                self.wf(),
                c@.map_values(|x: Vec<char>| x@) == comps(p@),
                forall|k: int| 0 <= k < i ==> #[trigger] old_claimed[k] != comps(p@),
        {
            if same_components(&self.entries[i], &c) {
                assert(old_claimed[i as int] == comps(p@));
                return false;
            }
        }
        self.entries.push(c);
        assert(self.claimed() =~= old_claimed.push(comps(p@)));
        true
    }
}

fn same_components(a: &Vec<Vec<char>>, b: &Vec<Vec<char>>) -> (r: bool)
    ensures
        r == (a@.map_values(|c: Vec<char>| c@) == b@.map_values(|c: Vec<char>| c@)),
{
    let ghost ma = a@.map_values(|c: Vec<char>| c@);
    let ghost mb = b@.map_values(|c: Vec<char>| c@);
    if a.len() != b.len() {
        assert(ma.len() != mb.len());
        return false;
    }
    for i in 0..a.len()
        invariant
            a@.len() == b@.len(),
            ma == a@.map_values(|c: Vec<char>| c@),
            mb == b@.map_values(|c: Vec<char>| c@),
            forall|k: int| 0 <= k < i ==> ma[k] == mb[k],
    {
        if !chars_equal(&a[i], &b[i]) {
            assert(ma[i as int] != mb[i as int]);
            return false;
        }
    }
    assert(ma =~= mb);
    true
}

/// The hash-table key of a (device, inode) pair: the device in the high 64
/// bits, the inode in the low 64 bits, so that distinct pairs have distinct
/// keys.
pub open spec fn inode_key(id: (u64, u64)) -> int {
    id.0 as int * 0x1_0000_0000_0000_0000 + id.1 as int
}

proof fn lemma_inode_key_injective(a: (u64, u64), b: (u64, u64))
    ensures
        inode_key(a) == inode_key(b) <==> a == b,
{
}

/// The (device, inode) pairs already counted: a file with several hard links
/// is counted at its first link only.
pub struct InodeSet {
    ids: HashSet<u128>,
}

impl InodeSet {
    pub closed spec fn counted(self) -> Set<(u64, u64)> {
        Set::new(|id: (u64, u64)| self.ids@.contains(inode_key(id) as u128))
    }

    pub fn new() -> (r: Self)
        ensures
            r.counted() == Set::<(u64, u64)>::empty(),
    {
        let r = InodeSet { ids: HashSet::new() };
        assert(r.counted() =~= Set::<(u64, u64)>::empty());
        r
    }

    /// Counts `id`; false when it was counted before.
    pub fn insert(&mut self, id: (u64, u64)) -> (r: bool)
        ensures
            r == !old(self).counted().contains(id),
            final(self).counted() == old(self).counted().insert(id),
    {
        broadcast use vstd::std_specs::hash::group_hash_axioms;
        let key: u128 = (id.0 as u128) * 0x1_0000_0000_0000_0000u128 + (id.1 as u128);
        assert(key == inode_key(id));
        let ghost before = self.ids@;
        let r = self.ids.insert(key);
        proof {
            assert forall|x: (u64, u64)| #[trigger] self.counted().contains(x) == old(self).counted().insert(id).contains(
                x,
            ) by {
                lemma_inode_key_injective(x, id);
                assert(inode_key(x) as u128 == inode_key(x));
            }
            assert(self.counted() =~= old(self).counted().insert(id));
        }
        r
    }
}

/// What one directory entry adds to a size total, for an entry of the given
/// kind with `blocks` allocated 512-byte blocks: nothing for a symbolic link
/// or anything other than a file or folder; a folder its own blocks (its
/// contents are added separately); a file its blocks, except that a file with
/// several hard links counts only at the first link met, which `seen`
/// records.
pub fn entry_size(kind: EntryKind, nlink: u64, id: (u64, u64), blocks: u64, seen: &mut InodeSet) -> (r: u64)
    ensures
        (kind == EntryKind::Symlink || kind == EntryKind::Other) ==> r == 0,
        kind == EntryKind::Dir ==> r == real_size_spec(blocks),
        kind == EntryKind::File ==> r == (if nlink > 1 && old(seen).counted().contains(id) {
            0
        } else {
            real_size_spec(blocks)
        }),
        final(seen).counted() == (if kind == EntryKind::File && nlink > 1 {
            old(seen).counted().insert(id)
        } else {
            old(seen).counted()
        }),
{
    match kind {
        EntryKind::Symlink | EntryKind::Other => 0,
        EntryKind::Dir => real_size(blocks),
        EntryKind::File => {
            if nlink > 1 && !seen.insert(id) {
                0
            } else {
                real_size(blocks)
            }
        },
    }
}

// ---------------------------------------------------------------------------
// Walking a root
// ---------------------------------------------------------------------------

/// What the walk of a root does with an entry before a scanner sees it.
#[derive(Debug, Clone, Copy, PartialEq, Eq, Structural)]
pub enum WalkEntry {
    /// Protected: neither shown to the scanner nor entered.
    Skip,
    /// A directory, shown to the scanner.
    Dir,
    /// A regular file, shown to the scanner.
    File,
    /// Anything else: passed over.
    Other,
}

pub open spec fn walk_entry_spec(m: Matchers, path: Seq<char>, is_dir: bool, is_file: bool) -> WalkEntry {
    if m.protects(path) {
        WalkEntry::Skip
    } else if is_dir {
        WalkEntry::Dir
    } else if is_file {
        WalkEntry::File
    } else {
        WalkEntry::Other
    }
}

/// Classifies an entry met while walking a root: protected paths are skipped
/// whole; directories and regular files go to the scanner.
pub fn walk_entry(m: &Matchers, path: &str, is_dir: bool, is_file: bool) -> (r: WalkEntry)
    ensures
        r == walk_entry_spec(*m, path@, is_dir, is_file),
{
    if m.is_protected(path) {
        WalkEntry::Skip
    } else if is_dir {
        WalkEntry::Dir
    } else if is_file {
        WalkEntry::File
    } else {
        WalkEntry::Other
    }
}

/// Whether the walk enters a directory after the scanner has seen it: not
/// when the scanner pruned it, nor when its name is excluded.
pub fn walk_descends(m: &Matchers, name: &str, pruned: bool) -> (r: bool)
    ensures
        r == (!pruned && !strs(m.exclude_names@).contains(name@)),
{
    !pruned && !m.is_excluded_dir(name)
}

// ---------------------------------------------------------------------------
// What a finished category scan reports
// ---------------------------------------------------------------------------

/// The messages for a finished category scan: the final count and size, then
/// the items; or the reason it was skipped.
pub fn scan_outcome(cat: Category, result: Result<Vec<ScanItem>, String>) -> (r: Vec<WorkerMsg>)
    requires
        result matches Ok(items) ==> sum_bytes(items@) <= u64::MAX,
    ensures
        match result {
            Ok(items) => r@.len() == 2 && r@[0] == WorkerMsg::ScanProgress {
                category: cat,
                found: items.len(),
                bytes: sum_bytes(items@) as u64,
            } && r@[1] == WorkerMsg::ScanDone { category: cat, items },
            Err(reason) => r@.len() == 1 && r@[0] == WorkerMsg::ScanSkipped { category: cat, reason },
        },
{
    match result {
        Ok(items) => {
            let bytes = crate::model::sum_item_bytes(&items);
            let found = items.len();
            vec![WorkerMsg::ScanProgress { category: cat, found, bytes }, WorkerMsg::ScanDone { category: cat, items }]
        },
        Err(reason) => vec![WorkerMsg::ScanSkipped { category: cat, reason }],
    }
}

/// One skip message per category, all with the same reason.
pub fn skip_all(cats: &Vec<Category>, reason: &str) -> (r: Vec<WorkerMsg>)
    ensures
        r@.len() == cats@.len(),
        forall|i: int| 0 <= i < r@.len() ==> (#[trigger] r@[i] matches WorkerMsg::ScanSkipped { category, reason: why } && category == cats@[i] && why@ == reason@),
{
    let mut r: Vec<WorkerMsg> = Vec::new();
    for i in 0..cats.len()
        invariant
            r@.len() == i,
            forall|k: int| 0 <= k < i ==> (#[trigger] r@[k] matches WorkerMsg::ScanSkipped { category, reason: why } && category == cats@[k] && why@ == reason@),
    {
        r.push(WorkerMsg::ScanSkipped { category: cats[i], reason: crate::text::owned(reason) });
    }
    r
}

// ---------------------------------------------------------------------------
// Disk usage
// ---------------------------------------------------------------------------

/// The words of the first line, from line `k` on, that has at least four.
pub open spec fn df_row(ls: Seq<Seq<char>>, k: int) -> Option<Seq<Seq<char>>>
    decreases ls.len() - k,
{
    if k < 0 || k >= ls.len() {
        None
    } else if words_spec(ls[k]).len() >= 4 {
        Some(words_spec(ls[k]))
    } else {
        df_row(ls, k + 1)
    }
}

pub open spec fn number_or_zero(w: Seq<char>) -> nat {
    match parse_u64_spec(w) {
        Some(v) => v as nat,
        None => 0,
    }
}

/// The disk size and free space in the output of `df -k /`: the second and
/// fourth column (in KiB) of the first row after the header with at least
/// four columns; an unreadable number counts as zero, no such row gives
/// zeros. `None` when a value in bytes does not fit in 64 bits.
pub open spec fn df_spec(text: Seq<char>) -> Option<DiskInfo> {
    match df_row(lines_spec(text), 1) {
        None => Some(DiskInfo { total: 0, free: 0 }),
        Some(w) => {
            let total = number_or_zero(w[1]) * 1024;
            let free = number_or_zero(w[3]) * 1024;
            if total > u64::MAX || free > u64::MAX {
                None
            } else {
                Some(DiskInfo { total: total as u64, free: free as u64 })
            }
        },
    }
}

fn parse_or_zero(w: &Vec<char>) -> (r: u64)
    ensures
        r == number_or_zero(w@),
{
    match parse_u64(w) {
        Some(v) => v,
        None => 0,
    }
}

/// Reads the startup volume's size and free space from `df -k /` output.
pub fn parse_df_output(text: &str) -> (r: Option<DiskInfo>)
    ensures
        r == df_spec(text@),
{
    let ls = lines(&chars_of(text));
    let ghost lsv = lines_spec(text@);
    let mut k: usize = 1;
    while k < ls.len()
        invariant
            lsv == lines_spec(text@),
            ls@.len() == lsv.len(),
            forall|i: int| 0 <= i < ls@.len() ==> #[trigger] ls@[i]@ == lsv[i],
            1 <= k,
            df_row(lsv, 1) == df_row(lsv, k as int),
        decreases ls.len() - k,
    {
        let ws = words(&ls[k]);
        if ws.len() >= 4 {
            assert(df_row(lsv, k as int) == Some(words_spec(lsv[k as int])));
            assert(ws@[1]@ == words_spec(lsv[k as int])[1]);
            assert(ws@[3]@ == words_spec(lsv[k as int])[3]);
            let total = parse_or_zero(&ws[1]);
            let free = parse_or_zero(&ws[3]);
            let ghost w = words_spec(lsv[k as int]);
            assert(df_row(lines_spec(text@), 1) == Some(w));
            assert(df_spec(text@) == (if number_or_zero(w[1]) * 1024 > u64::MAX || number_or_zero(w[3]) * 1024 > u64::MAX {
                None
            } else {
                Some(DiskInfo { total: (number_or_zero(w[1]) * 1024) as u64, free: (number_or_zero(w[3]) * 1024) as u64 })
            }));
            assert(total == number_or_zero(w[1]));
            assert(free == number_or_zero(w[3]));
            if total > 18014398509481983u64 || free > 18014398509481983u64 {
                return None;
            }
            return Some(DiskInfo { total: total * 1024, free: free * 1024 });
        }
        k = k + 1;
    }
    Some(DiskInfo { total: 0, free: 0 })
}

/// The items of a category, largest first (items of equal size keep their
/// order).
pub fn by_size(items: Vec<ScanItem>) -> (r: Vec<ScanItem>)
    ensures
        exists|p: Seq<int>| is_rank_order(RankKey::Size, items@, p) && arranged(items@, p, r@),
{
    sort_desc(items, RankKey::Size)
}

} // verus!
