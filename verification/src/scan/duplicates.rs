//! Duplicate-file detection: size buckets, then a partial hash, then a full
//! BLAKE3 hash; in each set of identical files the oldest is kept.
//!
//! The application walks the folders, reads the files and feeds their bytes
//! to a [`Digester`]; which files are compared, how they are grouped and which
//! one is kept is decided here.
use vstd::prelude::*;
use std::collections::HashMap;
use crate::model::{Category, ItemAction, RankKey, SafetyTier, ScanItem, arranged, is_rank_order, sort_desc};
use crate::paths::{file_name, file_name_of};
use crate::scan::InodeSet;
use crate::text::{chars_of, string_from};

verus! {

broadcast use vstd::std_specs::hash::group_hash_axioms;

// ---------------------------------------------------------------------------
// BLAKE3
// ---------------------------------------------------------------------------

#[verifier::external_type_specification]
#[verifier::external_body]
pub struct ExHasher(blake3::Hasher);

/// The bytes a `blake3::Hasher` has been fed so far, in order.
pub uninterp spec fn hasher_input(h: blake3::Hasher) -> Seq<u8>;

/// The 32-byte BLAKE3 hash of some bytes.
pub uninterp spec fn blake3_digest(input: Seq<u8>) -> Seq<u8>;

/// `blake3::Hasher::new`: a hasher that has been fed nothing.
#[verifier::external_body]
fn hasher_new() -> (r: blake3::Hasher)
    ensures
        hasher_input(r) == Seq::<u8>::empty(),
{
    blake3::Hasher::new()
}

/// `blake3::Hasher::update`: appends the bytes to what the hasher has been
/// fed.
#[verifier::external_body]
fn hasher_update(h: &mut blake3::Hasher, data: &[u8])
    ensures
        hasher_input(*final(h)) == hasher_input(*old(h)) + data@,
{
    h.update(data);
}

/// `blake3::Hasher::finalize`: the BLAKE3 hash of everything fed so far,
/// as its 32 bytes.
#[verifier::external_body]
fn hasher_finalize(h: &blake3::Hasher) -> (r: Vec<u8>)
    ensures
        r@ == blake3_digest(hasher_input(*h)),
        r@.len() == 32,
{
    h.finalize().as_bytes().to_vec()
}

/// A BLAKE3 hash computed from bytes fed piece by piece, so a large file is
/// never held in memory at once.
pub struct Digester {
    hasher: blake3::Hasher,
}

impl Digester {
    /// The bytes fed so far.
    pub closed spec fn fed(self) -> Seq<u8> {
        hasher_input(self.hasher)
    }

    pub fn new() -> (r: Self)
        ensures
            r.fed() == Seq::<u8>::empty(),
    {
        Digester { hasher: hasher_new() }
    }

    pub fn update(&mut self, data: &[u8])
        ensures
            final(self).fed() == old(self).fed() + data@,
    {
        hasher_update(&mut self.hasher, data);
    }

    /// The hash of everything fed so far.
    pub fn digest(&self) -> (r: Vec<u8>)
        ensures
            r@ == blake3_digest(self.fed()),
            r@.len() == 32,
    {
        hasher_finalize(&self.hasher)
    }
}

/// Bytes read from the head of a file for the cheap pre-filter, and from its
/// tail.
pub const PARTIAL: usize = 4096;

/// Whether the pre-filter also reads a file's tail: only when the file is
/// longer than twice [`PARTIAL`], so that head and tail do not overlap.
pub fn reads_tail(size: u64) -> (r: bool)
    ensures
        r == (size > 2 * PARTIAL),
{
    size > 2 * (PARTIAL as u64)
}

/// The pre-filter hash of a file: of its first bytes, followed by its last
/// bytes when the file is long enough to have a separate tail.
pub fn partial_digest(head: &[u8], tail: Option<&[u8]>) -> (r: Vec<u8>)
    ensures
        r@ == blake3_digest(
            match tail {
                Some(t) => head@ + t@,
                None => head@,
            },
        ),
{
    let mut d = Digester::new();
    d.update(head);
    match tail {
        Some(t) => d.update(t),
        None => {},
    }
    assert(Seq::<u8>::empty() + head@ == head@);
    d.digest()
}

// ---------------------------------------------------------------------------
// Candidates
// ---------------------------------------------------------------------------

/// A candidate file: where it is, its real size, and when it was created
/// (nanoseconds from the Unix epoch, negative before it).
#[derive(Debug, Clone)]
pub struct FileEntry {
    pub path: String,
    pub bytes: u64,
    pub birth: i128,
}

/// The files collected from the duplicate roots and the hard-linked inodes
/// already counted.
pub struct DupCollector {
    pub files: Vec<FileEntry>,
    pub inodes: InodeSet,
}

impl DupCollector {
    pub fn new() -> (r: Self)
        ensures
            r.files@.len() == 0,
            r.inodes.counted() == Set::<(u64, u64)>::empty(),
    {
        DupCollector { files: Vec::new(), inodes: InodeSet::new() }
    }

    /// Considers a regular file: kept when it is at least `min_bytes`, and,
    /// when it has several hard links, only at the first link seen.
    pub fn consider(&mut self, entry: FileEntry, min_bytes: u64, links: u64, inode: (u64, u64)) -> (r: bool)
        ensures
            r == (entry.bytes >= min_bytes && !(links > 1 && old(self).inodes.counted().contains(inode))),
            r ==> final(self).files@ == old(self).files@.push(entry),
            !r ==> final(self).files@ == old(self).files@,
            entry.bytes >= min_bytes && links > 1 ==> final(self).inodes.counted() == (if old(
                self,
            ).inodes.counted().contains(inode) {
                old(self).inodes.counted()
            } else {
                old(self).inodes.counted().insert(inode)
            }),
            !(entry.bytes >= min_bytes && links > 1) ==> final(self).inodes.counted() == old(self).inodes.counted(),
    {
        if entry.bytes < min_bytes {
            return false;
        }
        if links > 1 && !self.inodes.insert(inode) {
            return false;
        }
        self.files.push(entry);
        true
    }
}

/// How many files have `b` bytes.
pub open spec fn size_count(files: Seq<FileEntry>, b: u64) -> nat
    decreases files.len(),
{
    if files.len() == 0 {
        0
    } else {
        size_count(files.drop_last(), b) + if files.last().bytes == b {
            1nat
        } else {
            0nat
        }
    }
}

/// Another file has the same size as file `i`.
pub open spec fn size_shared(files: Seq<FileEntry>, i: int) -> bool {
    size_count(files, files[i].bytes) >= 2
}

proof fn lemma_size_count_le(files: Seq<FileEntry>, b: u64)
    ensures
        size_count(files, b) <= files.len(),
    decreases files.len(),
{
    if files.len() > 0 {
        lemma_size_count_le(files.drop_last(), b);
    }
}

/// Stage one: the files whose size another file shares, in order. Only they
/// can have a twin, so no other file is ever read.
pub fn size_candidates(files: &Vec<FileEntry>) -> (r: Vec<usize>)
    ensures
        forall|k: int| 0 <= k < r@.len() ==> r@[k] < files@.len() && size_shared(files@, r@[k] as int),
        forall|k1: int, k2: int| 0 <= k1 < k2 < r@.len() ==> r@[k1] < r@[k2],
        forall|i: int| 0 <= i < files@.len() && size_shared(files@, i) ==> r@.contains(i as usize),
{
    let mut counts: HashMap<u64, usize> = HashMap::new();
    let n = files.len();
    for i in 0..n
        invariant
            n == files@.len(),
            forall|b: u64| #[trigger] counts@.contains_key(b) <==> size_count(files@.take(i as int), b) > 0,
            forall|b: u64| #[trigger] counts@.contains_key(b) ==> counts@[b] == size_count(files@.take(i as int), b),
    {
        let b = files[i].bytes;
        assert(files@.take(i + 1).drop_last() == files@.take(i as int));
        proof {
            lemma_size_count_le(files@.take(i as int), b);
        }
        let c: usize = match counts.get(&b) {
            Some(v) => *v,
            None => 0,
        };
        counts.insert(b, c + 1);
    }
    assert(files@.take(n as int) == files@);
    let mut r: Vec<usize> = Vec::new();
    for i in 0..n
        invariant
            n == files@.len(),
            forall|b: u64| #[trigger] counts@.contains_key(b) <==> size_count(files@, b) > 0,
            forall|b: u64| #[trigger] counts@.contains_key(b) ==> counts@[b] == size_count(files@, b),
            forall|k: int| 0 <= k < r@.len() ==> r@[k] < i && size_shared(files@, r@[k] as int),
            forall|k1: int, k2: int| 0 <= k1 < k2 < r@.len() ==> r@[k1] < r@[k2],
            forall|j: int| 0 <= j < i && size_shared(files@, j) ==> r@.contains(j as usize),
    {
        let b = files[i].bytes;
        let shared = match counts.get(&b) {
            Some(v) => *v >= 2,
            None => false,
        };
        if shared {
            let ghost old_r = r@;
            r.push(i);
            assert(r@[r@.len() - 1] == i);
            assert forall|j: int| 0 <= j < i + 1 && size_shared(files@, j) implies r@.contains(j as usize) by {
                if j < i {
                    assert(old_r.contains(j as usize));
                    let k = choose|k: int| 0 <= k < old_r.len() && old_r[k] == j as usize;
                    assert(r@[k] == j as usize);
                } else {
                    assert(r@[r@.len() - 1] == j as usize);
                }
            }
        }
    }
    r
}

// ---------------------------------------------------------------------------
// Grouping by hash
// ---------------------------------------------------------------------------

/// A file index, the hash of the file and its size.
pub type Keyed = (usize, Vec<u8>, u64);

/// The keyed entries with their hashes taken as byte sequences.
pub open spec fn keyed_view(es: Seq<Keyed>) -> Seq<(usize, Seq<u8>, u64)> {
    es.map_values(|e: Keyed| (e.0, e.1@, e.2))
}

pub open spec fn same_key(a: (usize, Seq<u8>, u64), b: (usize, Seq<u8>, u64)) -> bool {
    a.1 == b.1 && a.2 == b.2
}

/// The files of the entries with the same hash and size as `e`, in order.
pub open spec fn key_members(es: Seq<(usize, Seq<u8>, u64)>, e: (usize, Seq<u8>, u64)) -> Seq<usize>
    decreases es.len(),
{
    if es.len() == 0 {
        Seq::empty()
    } else if same_key(es.last(), e) {
        key_members(es.drop_last(), e).push(es.last().0)
    } else {
        key_members(es.drop_last(), e)
    }
}

/// No entry before `t` has the key of entry `t`.
pub open spec fn first_with_key(es: Seq<(usize, Seq<u8>, u64)>, t: int) -> bool {
    forall|s: int| 0 <= s < t ==> !same_key(#[trigger] es[s], es[t])
}

/// One group per key that at least two of the first `n` entries' keys...
/// more precisely: for each entry among the first `n` that is the first with
/// its key, the group of all entries with that key, when it has two or more.
pub open spec fn groups_upto(es: Seq<(usize, Seq<u8>, u64)>, n: int) -> Seq<Seq<usize>>
    decreases n,
{
    if n <= 0 {
        Seq::empty()
    } else {
        let prev = groups_upto(es, n - 1);
        let m = key_members(es, es[n - 1]);
        if first_with_key(es, n - 1) && m.len() >= 2 {
            prev.push(m)
        } else {
            prev
        }
    }
}

fn bytes_equal(a: &Vec<u8>, b: &Vec<u8>) -> (r: bool)
    ensures
        r == (a@ == b@),
{
    if a.len() != b.len() {
        return false;
    }
    for i in 0..a.len()
        invariant
            a@.len() == b@.len(),
            forall|k: int| 0 <= k < i ==> a@[k] == b@[k],
    {
        if a[i] != b[i] {
            return false;
        }
    }
    assert(a@ =~= b@);
    true
}

fn keys_equal(a: &Keyed, b: &Keyed) -> (r: bool)
    ensures
        r == same_key((a.0, a.1@, a.2), (b.0, b.1@, b.2)),
{
    a.2 == b.2 && bytes_equal(&a.1, &b.1)
}

/// Stages two and three: the files grouped by equal hash and size, each group
/// listed once (in the order of its first file), with its files in order;
/// a file with no twin is in no group.
pub fn group_by_key(es: &Vec<Keyed>) -> (r: Vec<Vec<usize>>)
    ensures
        r@.len() == groups_upto(keyed_view(es@), es@.len() as int).len(),
        forall|i: int| 0 <= i < r@.len() ==> #[trigger] r@[i]@ == groups_upto(keyed_view(es@), es@.len() as int)[i],
{
    let ghost v = keyed_view(es@);
    let n = es.len();
    let mut r: Vec<Vec<usize>> = Vec::new();
    for t in 0..n
        invariant
            n == es@.len(),
            v == keyed_view(es@),
            r@.len() == groups_upto(v, t as int).len(),
            forall|i: int| 0 <= i < r@.len() ==> #[trigger] r@[i]@ == groups_upto(v, t as int)[i],
    {
        let mut first = true;
        for s in 0..t
            invariant
                t < n,
                n == es@.len(),
                v == keyed_view(es@),
                first == forall|q: int| 0 <= q < s ==> !same_key(#[trigger] v[q], v[t as int]),
        {
            if keys_equal(&es[s], &es[t]) {
                assert(same_key(v[s as int], v[t as int]));
                first = false;
            }
        }
        if first {
            let mut m: Vec<usize> = Vec::new();
            for u in 0..n
                invariant
                    t < n,
                    n == es@.len(),
                    v == keyed_view(es@),
                    m@ == key_members(v.take(u as int), v[t as int]),
            {
                assert(v.take(u + 1).drop_last() == v.take(u as int));
                assert(v.take(u + 1).last() == v[u as int]);
                if keys_equal(&es[u], &es[t]) {
                    m.push(es[u].0);
                }
            }
            assert(v.take(n as int) == v);
            if m.len() >= 2 {
                r.push(m);
            }
        }
    }
    r
}

// ---------------------------------------------------------------------------
// Items
// ---------------------------------------------------------------------------

/// Member `a` of a group comes before member `b` (positions in `g`): born
/// earlier, or born at the same time and listed earlier.
pub open spec fn born_before(files: Seq<FileEntry>, g: Seq<usize>, a: int, b: int) -> bool {
    files[g[a] as int].birth < files[g[b] as int].birth || (files[g[a] as int].birth == files[g[b] as int].birth
        && a < b)
}

pub open spec fn lists(p: Seq<int>, j: int) -> bool {
    exists|k: int| 0 <= k < p.len() && #[trigger] p[k] == j
}

/// `p` lists every position of `g` once, oldest file first, files born at
/// the same time in their order in `g` (a stable sort by birth).
pub open spec fn is_birth_order(files: Seq<FileEntry>, g: Seq<usize>, p: Seq<int>) -> bool {
    &&& p.len() == g.len()
    &&& forall|k: int| 0 <= k < p.len() ==> 0 <= #[trigger] p[k] < g.len()
    &&& forall|j: int| 0 <= j < g.len() ==> #[trigger] lists(p, j)
    &&& forall|k1: int, k2: int| 0 <= k1 < k2 < p.len() ==> #[trigger] born_before(files, g, p[k1], p[k2])
}

/// The members of a group, oldest first.
fn birth_order(files: &Vec<FileEntry>, g: &Vec<usize>) -> (r: Vec<usize>)
    requires
        forall|k: int| 0 <= k < g@.len() ==> g@[k] < files@.len(),
    ensures
        exists|p: Seq<int>| is_birth_order(files@, g@, p) && r@.len() == p.len() && forall|k: int|
            0 <= k < p.len() ==> #[trigger] r@[k] == g@[p[k]],
{
    let n = g.len();
    let mut out: Vec<usize> = Vec::new();
    let ghost mut p: Seq<int> = Seq::empty();
    let mut i = n;
    while i > 0
        invariant
            i <= n,
            n == g@.len(),
            forall|k: int| 0 <= k < g@.len() ==> g@[k] < files@.len(),
            out@.len() == p.len(),
            p.len() + i == n,
            forall|k: int| 0 <= k < p.len() ==> i <= #[trigger] p[k] < n,
            forall|k: int| 0 <= k < p.len() ==> #[trigger] out@[k] == g@[p[k]],
            forall|j: int| i <= j < n ==> #[trigger] lists(p, j),
            forall|k1: int, k2: int| 0 <= k1 < k2 < p.len() ==> #[trigger] born_before(files@, g@, p[k1], p[k2]),
        decreases i,
    {
        i = i - 1;
        let x = g[i];
        let bx = files[x].birth;
        let mut pos: usize = 0;
        while pos < out.len() && files[out[pos]].birth < bx
            invariant
                pos <= out@.len(),
                forall|k: int| 0 <= k < out@.len() ==> out@[k] < files@.len(),
                forall|k: int| 0 <= k < pos ==> files@[#[trigger] out@[k] as int].birth < bx,
            decreases out@.len() - pos,
        {
            pos = pos + 1;
        }
        let ghost old_p = p;
        let ghost old_out = out@;
        out.insert(pos, x);
        proof {
            p = old_p.insert(pos as int, i as int);
            assert forall|k: int| 0 <= k < p.len() implies #[trigger] out@[k] == g@[p[k]] by {
                if k < pos {
                    assert(out@[k] == old_out[k]);
                } else if k > pos {
                    assert(out@[k] == old_out[k - 1]);
                }
            }
            assert forall|k: int| 0 <= k < p.len() implies i <= #[trigger] p[k] < n by {
                if k < pos {
                    assert(p[k] == old_p[k]);
                } else if k > pos {
                    assert(p[k] == old_p[k - 1]);
                }
            }
            assert forall|j: int| i <= j < n implies #[trigger] lists(p, j) by {
                if j == i {
                    assert(p[pos as int] == i);
                } else {
                    assert(lists(old_p, j));
                    let k0 = choose|k: int| 0 <= k < old_p.len() && #[trigger] old_p[k] == j;
                    if k0 < pos {
                        assert(p[k0] == j);
                    } else {
                        assert(p[k0 + 1] == j);
                    }
                }
            }
            assert forall|k1: int, k2: int| 0 <= k1 <= k2 < old_p.len() implies files@[g@[old_p[k1]] as int].birth
                <= files@[g@[old_p[k2]] as int].birth by {
                if k1 < k2 {
                    assert(born_before(files@, g@, old_p[k1], old_p[k2]));
                }
            }
            assert forall|k1: int, k2: int| 0 <= k1 < k2 < p.len() implies #[trigger] born_before(files@, g@, p[k1], p[k2]) by {
                if k2 < pos {
                    assert(p[k1] == old_p[k1] && p[k2] == old_p[k2]);
                    assert(born_before(files@, g@, old_p[k1], old_p[k2]));
                } else if k2 == pos {
                    assert(p[k1] == old_p[k1]);
                    assert(old_out[k1] == g@[old_p[k1]]);
                    assert(files@[old_out[k1] as int].birth < bx);
                } else if k1 > pos {
                    assert(p[k1] == old_p[k1 - 1] && p[k2] == old_p[k2 - 1]);
                    assert(born_before(files@, g@, old_p[k1 - 1], old_p[k2 - 1]));
                } else if k1 == pos {
                    assert(p[k2] == old_p[k2 - 1]);
                    assert(old_out[pos as int] == g@[old_p[pos as int]]);
                    assert(files@[old_out[pos as int] as int].birth >= bx);
                    assert(files@[g@[old_p[pos as int]] as int].birth <= files@[g@[old_p[k2 - 1]] as int].birth);
                    assert(i < old_p[k2 - 1]);
                } else {
                    assert(p[k1] == old_p[k1] && p[k2] == old_p[k2 - 1]);
                    assert(born_before(files@, g@, old_p[k1], old_p[k2 - 1]));
                }
            }
        }
    }
    assert(is_birth_order(files@, g@, p));
    out
}

/// The item of file `f` in duplicate set `gid`: the keeper is Risky and never
/// selected; every other member is Safe and selected.
pub open spec fn dup_item_is(i: ScanItem, f: FileEntry, keeper: bool, gid: u64) -> bool {
    &&& i.path@ == f.path@
    &&& i.label@ == (match file_name_of(f.path@) {
        Some(n) => n,
        None => Seq::empty(),
    })
    &&& i.real_bytes == f.bytes
    &&& i.tier == (if keeper {
        SafetyTier::Risky
    } else {
        SafetyTier::Safe
    })
    &&& i.category == Category::Duplicates
    &&& i.regen_note@ == (if keeper {
        "keeper (oldest) \u{2014} will not be deleted"@
    } else {
        "duplicate of older file"@
    })
    &&& i.group_id == Some(gid)
    &&& i.is_keeper == keeper
    &&& i.selected == !keeper
    &&& i.last_access_days == 0
    &&& i.action == ItemAction::Delete
}

/// The items of one set: its files oldest first, the first of them kept.
pub open spec fn group_ok(files: Seq<FileEntry>, g: Seq<usize>, gid: u64, chunk: Seq<ScanItem>) -> bool {
    exists|p: Seq<int>|
        is_birth_order(files, g, p) && chunk.len() == g.len() && forall|k: int|
            0 <= k < chunk.len() ==> dup_item_is(#[trigger] chunk[k], files[g[p[k]] as int], k == 0, gid)
}

/// How many groups have at least two files.
pub open spec fn sets_in(groups: Seq<Seq<usize>>) -> nat
    decreases groups.len(),
{
    if groups.len() == 0 {
        0
    } else {
        sets_in(groups.drop_last()) + if groups.last().len() >= 2 {
            1nat
        } else {
            0nat
        }
    }
}

/// `l` lists the items of every group with at least two files, group after
/// group, the sets numbered from 1 in order.
pub open spec fn layout(files: Seq<FileEntry>, groups: Seq<Seq<usize>>, l: Seq<ScanItem>) -> bool
    decreases groups.len(),
{
    if groups.len() == 0 {
        l.len() == 0
    } else {
        let g = groups.last();
        let prev = groups.drop_last();
        if g.len() < 2 {
            layout(files, prev, l)
        } else {
            &&& l.len() >= g.len()
            &&& layout(files, prev, l.take(l.len() - g.len()))
            &&& group_ok(files, g, (sets_in(prev) + 1) as u64, l.skip(l.len() - g.len()))
        }
    }
}

proof fn lemma_sets_in_le(groups: Seq<Seq<usize>>)
    ensures
        sets_in(groups) <= groups.len(),
    decreases groups.len(),
{
    if groups.len() > 0 {
        lemma_sets_in_le(groups.drop_last());
    }
}

/// The groups as sequences of file indices.
pub open spec fn groups_view(groups: Seq<Vec<usize>>) -> Seq<Seq<usize>> {
    groups.map_values(|g: Vec<usize>| g@)
}

/// The items of the duplicate sets: in each set the oldest file is the keeper
/// and every other file is selected; largest first.
pub fn duplicate_items(files: &Vec<FileEntry>, groups: &Vec<Vec<usize>>) -> (r: Vec<ScanItem>)
    requires
        forall|gi: int, k: int| 0 <= gi < groups@.len() && 0 <= k < groups@[gi]@.len() ==> #[trigger] groups@[gi]@[k]
            < files@.len(),
        groups@.len() < u64::MAX,
    ensures
        exists|l: Seq<ScanItem>|
            #[trigger] layout(files@, groups_view(groups@), l) && exists|p: Seq<int>|
                is_rank_order(RankKey::Size, l, p) && arranged(l, p, r@),
{
    let ghost gv = groups_view(groups@);
    let mut out: Vec<ScanItem> = Vec::new();
    let mut gid: u64 = 1;
    for gi in 0..groups.len()
        invariant
            gv == groups_view(groups@),
            forall|a: int, k: int| 0 <= a < groups@.len() && 0 <= k < groups@[a]@.len() ==> #[trigger] groups@[a]@[k]
                < files@.len(),
            groups@.len() < u64::MAX,
            layout(files@, gv.take(gi as int), out@),
            gid == sets_in(gv.take(gi as int)) + 1,
    {
        let g = &groups[gi];
        assert(gv.take(gi + 1).drop_last() == gv.take(gi as int));
        assert(gv.take(gi + 1).last() == g@);
        proof {
            lemma_sets_in_le(gv.take(gi as int));
        }
        if g.len() >= 2 {
            let ord = birth_order(files, g);
            let ghost p = choose|p: Seq<int>| is_birth_order(files@, g@, p) && ord@.len() == p.len() && forall|k: int|
                0 <= k < p.len() ==> #[trigger] ord@[k] == g@[p[k]];
            let ghost before = out@;
            for k in 0..ord.len()
                invariant
                    ord@.len() == g@.len(),
                    is_birth_order(files@, g@, p),
                    forall|j: int| 0 <= j < p.len() ==> #[trigger] ord@[j] == g@[p[j]],
                    forall|j: int| 0 <= j < g@.len() ==> g@[j] < files@.len(),
                    out@.len() == before.len() + k,
                    out@.take(before.len() as int) == before,
                    forall|j: int| 0 <= j < k ==> dup_item_is(#[trigger] out@[before.len() + j], files@[g@[p[j]] as int], j == 0, gid),
            {
                assert(0 <= p[k as int] < g@.len());
                let f = &files[ord[k]];
                let keeper = k == 0;
                let name = match file_name(&chars_of(f.path.as_str())) {
                    Some(n) => string_from(&n),
                    None => String::new(),
                };
                let mut item = ScanItem::new(
                    f.path.clone(),
                    name,
                    f.bytes,
                    if keeper {
                        SafetyTier::Risky
                    } else {
                        SafetyTier::Safe
                    },
                    Category::Duplicates,
                ).with_note(
                    if keeper {
                        "keeper (oldest) \u{2014} will not be deleted"
                    } else {
                        "duplicate of older file"
                    },
                );
                item.group_id = Some(gid);
                item.is_keeper = keeper;
                item.selected = !keeper;
                out.push(item);
                assert(out@.take(before.len() as int) =~= before);
            }
            proof {
                let chunk = out@.skip(before.len() as int);
                assert forall|k: int| 0 <= k < chunk.len() implies dup_item_is(#[trigger] chunk[k], files@[g@[p[k]] as int], k == 0, gid) by {
                    assert(chunk[k] == out@[before.len() + k]);
                }
                assert(group_ok(files@, g@, gid, chunk));
                assert(out@.take(out@.len() - g@.len()) == before);
            }
            gid = gid + 1;
        }
    }
    assert(gv.take(groups@.len() as int) == gv);
    let ghost l = out@;
    let r = sort_desc(out, RankKey::Size);
    assert(layout(files@, gv, l));
    r
}

} // verus!
