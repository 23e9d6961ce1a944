//! Core data model shared across scanning, cleaning, and the UI.
//!
//! Paths are carried as strings. Reclaim priority is kept in exact integer
//! arithmetic: the tier factors (1.0, 0.7, 0.3) and staleness factors
//! (0.8, 1.0, 1.2, 1.5) are held in tenths, so a priority is in hundredths of
//! a byte.
use vstd::prelude::*;
use crate::text::{chars_of, owned};

verus! {

/// How dangerous it is to remove an item. Drives default selection and color.
#[derive(Debug, Clone, Copy, PartialEq, Eq, Structural)]
pub enum SafetyTier {
    /// Regenerable junk. Selected by default.
    Safe,
    /// Usually fine but may cost a rebuild / re-login / re-download.
    Moderate,
    /// User data or potentially destructive. Never selected by default.
    Risky,
}

/// Ranking multiplier of a tier, in tenths.
pub open spec fn regen_tenths(t: SafetyTier) -> nat {
    match t {
        SafetyTier::Safe => 10,
        SafetyTier::Moderate => 7,
        SafetyTier::Risky => 3,
    }
}

pub open spec fn tier_label(t: SafetyTier) -> Seq<char> {
    match t {
        SafetyTier::Safe => "safe"@,
        SafetyTier::Moderate => "moderate"@,
        SafetyTier::Risky => "risky"@,
    }
}

impl SafetyTier {
    /// Multiplier used when ranking items by reclaim priority, in tenths
    /// (`10` for Safe, `7` for Moderate, `3` for Risky).
    pub fn regen_factor(self) -> (r: u64)
        ensures
            r == regen_tenths(self),
    {
        match self {
            SafetyTier::Safe => 10,
            SafetyTier::Moderate => 7,
            SafetyTier::Risky => 3,
        }
    }

    pub fn label(self) -> (r: &'static str)
        ensures
            r@ == tier_label(self),
    {
        match self {
            SafetyTier::Safe => "safe",
            SafetyTier::Moderate => "moderate",
            SafetyTier::Risky => "risky",
        }
    }
}

/// The top-level cleaning categories.
#[derive(Debug, Clone, Copy, PartialEq, Eq, Hash, Structural)]
pub enum Category {
    Caches,
    Logs,
    DevArtifacts,
    Duplicates,
    ICloud,
    LargeFiles,
    Trash,
}

/// Number of categories.
pub const CATEGORY_COUNT: usize = 7;

/// Position of a category in [`Category::ALL`].
pub open spec fn cat_index(c: Category) -> int {
    match c {
        Category::Caches => 0,
        Category::Logs => 1,
        Category::DevArtifacts => 2,
        Category::Duplicates => 3,
        Category::ICloud => 4,
        Category::LargeFiles => 5,
        Category::Trash => 6,
    }
}

/// The category at position `i` of [`Category::ALL`].
pub open spec fn cat_at(i: int) -> Category {
    if i == 0 {
        Category::Caches
    } else if i == 1 {
        Category::Logs
    } else if i == 2 {
        Category::DevArtifacts
    } else if i == 3 {
        Category::Duplicates
    } else if i == 4 {
        Category::ICloud
    } else if i == 5 {
        Category::LargeFiles
    } else {
        Category::Trash
    }
}

pub open spec fn cat_title(c: Category) -> Seq<char> {
    match c {
        Category::Caches => "Caches"@,
        Category::Logs => "Logs"@,
        Category::DevArtifacts => "Dev Artifacts"@,
        Category::Duplicates => "Duplicates"@,
        Category::ICloud => "iCloud Offload"@,
        Category::LargeFiles => "Large Files"@,
        Category::Trash => "Trash Bin"@,
    }
}

pub open spec fn cat_slug(c: Category) -> Seq<char> {
    match c {
        Category::Caches => "caches"@,
        Category::Logs => "logs"@,
        Category::DevArtifacts => "dev"@,
        Category::Duplicates => "duplicates"@,
        Category::ICloud => "icloud"@,
        Category::LargeFiles => "large"@,
        Category::Trash => "trash"@,
    }
}

pub open spec fn cat_icon(c: Category) -> Seq<char> {
    match c {
        Category::Caches => "\u{2699}"@,
        Category::Logs => "\u{1F4C4}"@,
        Category::DevArtifacts => "\u{1F6E0}"@,
        Category::Duplicates => "\u{29C9}"@,
        Category::ICloud => "\u{2601}"@,
        Category::LargeFiles => "\u{1F4E6}"@,
        Category::Trash => "\u{1F5D1}"@,
    }
}

/// The category whose slug is `s`, searching in [`Category::ALL`] order.
pub open spec fn cat_from_slug(s: Seq<char>) -> Option<Category> {
    if s == cat_slug(Category::Caches) {
        Some(Category::Caches)
    } else if s == cat_slug(Category::Logs) {
        Some(Category::Logs)
    } else if s == cat_slug(Category::DevArtifacts) {
        Some(Category::DevArtifacts)
    } else if s == cat_slug(Category::Duplicates) {
        Some(Category::Duplicates)
    } else if s == cat_slug(Category::ICloud) {
        Some(Category::ICloud)
    } else if s == cat_slug(Category::LargeFiles) {
        Some(Category::LargeFiles)
    } else if s == cat_slug(Category::Trash) {
        Some(Category::Trash)
    } else {
        None
    }
}

/// Whether two character sequences are equal.
pub fn chars_equal(a: &Vec<char>, b: &Vec<char>) -> (r: bool)
    ensures
        r == (a@ == b@),
{
    if a.len() != b.len() {
        return false;
    }
    for i in 0..a.len()
        invariant
            a.len() == b.len(),
            forall|k: int| 0 <= k < i ==> a@[k] == b@[k],
    {
        if a[i] != b[i] {
            return false;
        }
    }
    assert(a@ =~= b@);
    true
}

/// Whether the text of `s` equals the text of `t`.
pub fn str_equal(s: &str, t: &str) -> (r: bool)
    ensures
        r == (s@ == t@),
{
    let a = chars_of(s);
    let b = chars_of(t);
    chars_equal(&a, &b)
}

impl Category {
    pub const ALL: [Category; 7] = [
        Category::Caches,
        Category::Logs,
        Category::DevArtifacts,
        Category::Duplicates,
        Category::ICloud,
        Category::LargeFiles,
        Category::Trash,
    ];

    /// All categories in display order.
    pub fn all() -> (r: Vec<Category>)
        ensures
            r@.len() == 7,
            forall|i: int| 0 <= i < 7 ==> #[trigger] r@[i] == cat_at(i),
    {
        vec![
            Category::Caches,
            Category::Logs,
            Category::DevArtifacts,
            Category::Duplicates,
            Category::ICloud,
            Category::LargeFiles,
            Category::Trash,
        ]
    }

    /// Position of the category in display order.
    pub fn index(self) -> (r: usize)
        ensures
            r == cat_index(self),
            r < 7,
    {
        match self {
            Category::Caches => 0,
            Category::Logs => 1,
            Category::DevArtifacts => 2,
            Category::Duplicates => 3,
            Category::ICloud => 4,
            Category::LargeFiles => 5,
            Category::Trash => 6,
        }
    }

    /// The category at a display position.
    pub fn from_index(i: usize) -> (r: Category)
        requires
            i < 7,
        ensures
            r == cat_at(i as int),
            cat_index(r) == i,
    {
        if i == 0 {
            Category::Caches
        } else if i == 1 {
            Category::Logs
        } else if i == 2 {
            Category::DevArtifacts
        } else if i == 3 {
            Category::Duplicates
        } else if i == 4 {
            Category::ICloud
        } else if i == 5 {
            Category::LargeFiles
        } else {
            Category::Trash
        }
    }

    pub fn title(self) -> (r: &'static str)
        ensures
            r@ == cat_title(self),
    {
        match self {
            Category::Caches => "Caches",
            Category::Logs => "Logs",
            Category::DevArtifacts => "Dev Artifacts",
            Category::Duplicates => "Duplicates",
            Category::ICloud => "iCloud Offload",
            Category::LargeFiles => "Large Files",
            Category::Trash => "Trash Bin",
        }
    }

    /// A short slug for CLI `--categories` parsing and JSON output.
    pub fn slug(self) -> (r: &'static str)
        ensures
            r@ == cat_slug(self),
    {
        match self {
            Category::Caches => "caches",
            Category::Logs => "logs",
            Category::DevArtifacts => "dev",
            Category::Duplicates => "duplicates",
            Category::ICloud => "icloud",
            Category::LargeFiles => "large",
            Category::Trash => "trash",
        }
    }

    /// The first category, in display order, whose slug is exactly `s`.
    pub fn from_slug(s: &str) -> (r: Option<Category>)
        ensures
            r == cat_from_slug(s@),
    {
        if str_equal(s, "caches") {
            Some(Category::Caches)
        } else if str_equal(s, "logs") {
            Some(Category::Logs)
        } else if str_equal(s, "dev") {
            Some(Category::DevArtifacts)
        } else if str_equal(s, "duplicates") {
            Some(Category::Duplicates)
        } else if str_equal(s, "icloud") {
            Some(Category::ICloud)
        } else if str_equal(s, "large") {
            Some(Category::LargeFiles)
        } else if str_equal(s, "trash") {
            Some(Category::Trash)
        } else {
            None
        }
    }

    pub fn icon(self) -> (r: &'static str)
        ensures
            r@ == cat_icon(self),
    {
        match self {
            Category::Caches => "\u{2699}",
            Category::Logs => "\u{1F4C4}",
            Category::DevArtifacts => "\u{1F6E0}",
            Category::Duplicates => "\u{29C9}",
            Category::ICloud => "\u{2601}",
            Category::LargeFiles => "\u{1F4E6}",
            Category::Trash => "\u{1F5D1}",
        }
    }
}

/// The display positions of the categories are a bijection onto `0..7`.
pub proof fn lemma_cat_index_bijection(c: Category, i: int)
    ensures
        0 <= cat_index(c) < 7,
        cat_at(cat_index(c)) == c,
        0 <= i < 7 ==> cat_index(cat_at(i)) == i,
{
}

/// Every slug names its own category: `from_slug(c.slug()) == Some(c)`.
pub proof fn lemma_slug_roundtrip(c: Category)
    ensures
        cat_from_slug(cat_slug(c)) == Some(c),
{
    reveal_strlit("caches");
    reveal_strlit("logs");
    reveal_strlit("dev");
    reveal_strlit("duplicates");
    reveal_strlit("icloud");
    reveal_strlit("large");
    reveal_strlit("trash");
    assert("caches"@.len() == 6);
    assert("logs"@.len() == 4);
    assert("dev"@.len() == 3);
    assert("duplicates"@.len() == 10);
    assert("icloud"@.len() == 6);
    assert("large"@.len() == 5);
    assert("trash"@.len() == 5);
    assert("caches"@[0] != "icloud"@[0]);
    assert("large"@[0] != "trash"@[0]);
}

/// Main panel: overview chart or a category item list.
#[derive(Debug, Clone, Copy, PartialEq, Eq, Structural)]
pub enum MainView {
    Dashboard,
    Category(Category),
}

impl MainView {
    pub fn category(self) -> (r: Option<Category>)
        ensures
            r == (match self {
                MainView::Dashboard => None,
                MainView::Category(c) => Some(c),
            }),
    {
        match self {
            MainView::Dashboard => None,
            MainView::Category(c) => Some(c),
        }
    }
}

/// What the cleaner should do with an item when the user confirms.
#[derive(Debug, Clone, Copy, PartialEq, Eq, Structural)]
pub enum ItemAction {
    /// Move the path to Trash (or permanently delete in `--permanent`).
    Delete,
    /// Truncate a still-open log file in place instead of deleting it.
    Truncate,
    /// `brctl evict` the path: free the local copy, keep it in iCloud.
    Evict,
    /// Empty the Trash bin (intentionally permanent).
    EmptyTrash,
    /// Run a Docker prune subcommand rather than touching files directly.
    DockerPrune(DockerPrune),
}

#[derive(Debug, Clone, Copy, PartialEq, Eq, Structural)]
pub enum DockerPrune {
    BuildCache,
    Images,
    Containers,
    Volumes,
}

pub open spec fn prune_args(d: DockerPrune) -> Seq<Seq<char>> {
    match d {
        DockerPrune::BuildCache => seq!["builder"@, "prune"@, "-f"@],
        DockerPrune::Images => seq!["image"@, "prune"@, "-af"@],
        DockerPrune::Containers => seq!["container"@, "prune"@, "-f"@],
        DockerPrune::Volumes => seq!["volume"@, "prune"@, "-f"@],
    }
}

impl DockerPrune {
    /// Arguments of the `docker` invocation for this prune.
    pub fn args(self) -> (r: Vec<&'static str>)
        ensures
            r@.len() == prune_args(self).len(),
            forall|i: int| 0 <= i < r@.len() ==> #[trigger] r@[i]@ == prune_args(self)[i],
    {
        match self {
            DockerPrune::BuildCache => vec!["builder", "prune", "-f"],
            DockerPrune::Images => vec!["image", "prune", "-af"],
            DockerPrune::Containers => vec!["container", "prune", "-f"],
            DockerPrune::Volumes => vec!["volume", "prune", "-f"],
        }
    }
}

/// One reclaimable thing found by a scanner.
#[derive(Debug)]
pub struct ScanItem {
    pub path: String,
    pub label: String,
    pub real_bytes: u64,
    pub tier: SafetyTier,
    pub category: Category,
    pub last_access_days: u32,
    pub regen_note: String,
    pub selected: bool,
    /// Duplicate-set id; items sharing a value are byte-identical.
    pub group_id: Option<u64>,
    /// Within a duplicate set, the keeper (oldest) is locked from selection.
    pub is_keeper: bool,
    pub action: ItemAction,
}

impl Clone for ScanItem {
    fn clone(&self) -> (r: Self)
        ensures
            r == *self,
    {
        ScanItem {
            path: self.path.clone(),
            label: self.label.clone(),
            real_bytes: self.real_bytes,
            tier: self.tier,
            category: self.category,
            last_access_days: self.last_access_days,
            regen_note: self.regen_note.clone(),
            selected: self.selected,
            group_id: self.group_id,
            is_keeper: self.is_keeper,
            action: self.action,
        }
    }
}

/// `i` is an unselected item outside any duplicate set, with these fields.
pub open spec fn item_is(
    i: ScanItem,
    path: Seq<char>,
    label: Seq<char>,
    bytes: u64,
    tier: SafetyTier,
    cat: Category,
    note: Seq<char>,
    days: u32,
    action: ItemAction,
) -> bool {
    &&& i.path@ == path
    &&& i.label@ == label
    &&& i.real_bytes == bytes
    &&& i.tier == tier
    &&& i.category == cat
    &&& i.regen_note@ == note
    &&& i.last_access_days == days
    &&& i.action == action
    &&& !i.selected
    &&& i.group_id is None
    &&& !i.is_keeper
}

/// Staleness multiplier for an item last touched `days` ago, in tenths.
pub open spec fn stale_tenths(days: nat) -> nat {
    if days <= 6 {
        8
    } else if days <= 29 {
        10
    } else if days <= 89 {
        12
    } else {
        15
    }
}

/// Reclaim priority of an item, in hundredths:
/// bytes × tier factor × staleness factor.
pub open spec fn priority_of(i: ScanItem) -> nat {
    i.real_bytes as nat * regen_tenths(i.tier) * stale_tenths(i.last_access_days as nat)
}

/// A keeper in a duplicate set can never be selected for deletion.
pub open spec fn selectable_item(i: ScanItem) -> bool {
    !i.is_keeper
}

/// Whether an item is both selected and allowed to be cleaned.
pub open spec fn chosen(i: ScanItem) -> bool {
    i.selected && !i.is_keeper
}

/// Older files are slightly better deletion candidates: the staleness factor
/// in tenths (0.8, 1.0, 1.2, 1.5 for 0–6, 7–29, 30–89 and 90+ days).
pub fn staleness_factor(days: u32) -> (r: u64)
    ensures
        r == stale_tenths(days as nat),
{
    if days <= 6 {
        8
    } else if days <= 29 {
        10
    } else if days <= 89 {
        12
    } else {
        15
    }
}

/// Older items never rank lower for staleness.
pub proof fn lemma_staleness_monotone(a: nat, b: nat)
    requires
        a <= b,
    ensures
        stale_tenths(a) <= stale_tenths(b),
{
}

impl ScanItem {
    pub fn new(path: String, label: String, real_bytes: u64, tier: SafetyTier, category: Category) -> (r: Self)
        ensures
            r.path == path,
            r.label == label,
            r.real_bytes == real_bytes,
            r.tier == tier,
            r.category == category,
            r.last_access_days == 0,
            r.regen_note@ == Seq::<char>::empty(),
            !r.selected,
            r.group_id is None,
            !r.is_keeper,
            r.action == ItemAction::Delete,
    {
        ScanItem {
            path,
            label,
            real_bytes,
            tier,
            category,
            last_access_days: 0,
            regen_note: String::new(),
            selected: false,
            group_id: None,
            is_keeper: false,
            action: ItemAction::Delete,
        }
    }

    pub fn with_note(self, note: &str) -> (r: Self)
        ensures
            r == (ScanItem { regen_note: r.regen_note, ..self }),
            r.regen_note@ == note@,
    {
        let mut s = self;
        s.regen_note = owned(note);
        s
    }

    pub fn with_action(self, action: ItemAction) -> (r: Self)
        ensures
            r == (ScanItem { action, ..self }),
    {
        let mut s = self;
        s.action = action;
        s
    }

    pub fn with_age(self, days: u32) -> (r: Self)
        ensures
            r == (ScanItem { last_access_days: days, ..self }),
    {
        let mut s = self;
        s.last_access_days = days;
        s
    }

    /// Ranking score in hundredths: big + regenerable + stale floats to the top.
    pub fn priority(&self) -> (r: u128)
        ensures
            r == priority_of(*self),
    {
        let a = self.real_bytes as u128;
        let b = self.tier.regen_factor() as u128;
        let c = staleness_factor(self.last_access_days) as u128;
        assert(a * b <= 0xffff_ffff_ffff_ffff * 10) by (nonlinear_arith)
            requires
                a <= 0xffff_ffff_ffff_ffff,
                b <= 10,
        ;
        assert(a * b * c <= 0xffff_ffff_ffff_ffff * 10 * 15) by (nonlinear_arith)
            requires
                a * b <= 0xffff_ffff_ffff_ffff * 10,
                c <= 15,
        ;
        a * b * c
    }

    /// A keeper in a duplicate set can never be selected for deletion.
    pub fn selectable(&self) -> (r: bool)
        ensures
            r == selectable_item(*self),
    {
        !self.is_keeper
    }
}

/// At equal size and age, a safer tier never ranks lower.
pub proof fn lemma_safer_ranks_higher(a: ScanItem, b: ScanItem)
    requires
        a.real_bytes == b.real_bytes,
        a.last_access_days == b.last_access_days,
        regen_tenths(a.tier) >= regen_tenths(b.tier),
    ensures
        priority_of(a) >= priority_of(b),
        a.real_bytes > 0 && regen_tenths(a.tier) > regen_tenths(b.tier) ==> priority_of(a)
            > priority_of(b),
{
    let x = a.real_bytes as nat;
    let s = stale_tenths(a.last_access_days as nat);
    let ra = regen_tenths(a.tier);
    let rb = regen_tenths(b.tier);
    assert(x * ra * s >= x * rb * s) by (nonlinear_arith)
        requires
            ra >= rb,
    ;
    assert(x > 0 && ra > rb ==> x * ra * s > x * rb * s) by (nonlinear_arith)
        requires
            s >= 8,
    ;
}

/// Progress/lifecycle of a single category scan.
#[derive(Debug, Clone, PartialEq, Eq)]
pub enum ScanStatus {
    Pending,
    Scanning { found: usize, bytes: u64 },
    Done,
    Skipped(String),
}


/// What a list of items is ranked by.
#[derive(Debug, Clone, Copy, PartialEq, Eq, Structural)]
pub enum RankKey {
    /// Reclaim priority (bytes × tier × staleness).
    Priority,
    /// Real size in bytes.
    Size,
}

pub open spec fn rank_of(key: RankKey, i: ScanItem) -> nat {
    match key {
        RankKey::Priority => priority_of(i),
        RankKey::Size => i.real_bytes as nat,
    }
}

pub fn rank_value(key: RankKey, i: &ScanItem) -> (r: u128)
    ensures
        r == rank_of(key, *i),
{
    match key {
        RankKey::Priority => i.priority(),
        RankKey::Size => i.real_bytes as u128,
    }
}

/// `a` ranks ahead of `b` (positions in `s`): larger key first, and among
/// equal keys the earlier position first.
pub open spec fn ranks_before(key: RankKey, s: Seq<ScanItem>, a: int, b: int) -> bool {
    rank_of(key, s[a]) > rank_of(key, s[b]) || (rank_of(key, s[a]) == rank_of(key, s[b]) && a < b)
}

/// Position `j` occurs somewhere in `p`.
pub open spec fn occurs_in(p: Seq<int>, j: int) -> bool {
    exists|k: int| 0 <= k < p.len() && #[trigger] p[k] == j
}

/// `p` lists every position of `s` exactly once, highest priority first, ties in
/// their original order (a stable descending sort).
pub open spec fn is_rank_order(key: RankKey, s: Seq<ScanItem>, p: Seq<int>) -> bool {
    &&& p.len() == s.len()
    &&& forall|k: int| 0 <= k < p.len() ==> 0 <= #[trigger] p[k] < s.len()
    &&& forall|j: int| 0 <= j < s.len() ==> #[trigger] occurs_in(p, j)
    &&& forall|k1: int, k2: int|
        0 <= k1 < k2 < p.len() ==> #[trigger] ranks_before(key, s, p[k1], p[k2])
}

/// `r` is `s` rearranged by the stable descending priority order `p`.
pub open spec fn arranged(s: Seq<ScanItem>, p: Seq<int>, r: Seq<ScanItem>) -> bool {
    r.len() == p.len() && forall|k: int| 0 <= k < r.len() ==> #[trigger] r[k] == s[p[k]]
}

/// Sorts items by `key`, largest first; items with equal keys keep their
/// relative order (a stable descending `sort_by`).
pub fn sort_desc(items: Vec<ScanItem>, key: RankKey) -> (r: Vec<ScanItem>)
    ensures
        exists|p: Seq<int>| is_rank_order(key, items@, p) && arranged(items@, p, r@),
{
    let ghost s = items@;
    let n = items.len();
    let mut rest = items;
    let mut out: Vec<ScanItem> = Vec::new();
    let ghost mut p: Seq<int> = Seq::empty();
    while rest.len() > 0
        invariant
            rest@ == s.take(rest@.len() as int),
            rest@.len() <= n,
            n == s.len(),
            out@.len() == p.len(),
            p.len() + rest@.len() == n,
            forall|k: int| 0 <= k < p.len() ==> rest@.len() <= #[trigger] p[k] < n,
            forall|k: int| 0 <= k < p.len() ==> #[trigger] out@[k] == s[p[k]],
            forall|j: int| rest@.len() <= j < n ==> #[trigger] occurs_in(p, j),
            forall|k1: int, k2: int| 0 <= k1 < k2 < p.len() ==> #[trigger] ranks_before(key, s, p[k1], p[k2]),
        decreases rest@.len(),
    {
        let ghost i = rest@.len() - 1;
        let x = rest.pop().unwrap();
        assert(s.take(i + 1).drop_last() == s.take(i));
        assert(x == s[i]);
        let px = rank_value(key, &x);
        let mut pos: usize = 0;
        while pos < out.len() && rank_value(key, &out[pos]) > px
            invariant
                pos <= out@.len(),
                forall|k: int| 0 <= k < pos ==> rank_of(key, #[trigger] out@[k]) > px,
            decreases out@.len() - pos,
        {
            pos = pos + 1;
        }
        let ghost old_p = p;
        let ghost old_out = out@;
        out.insert(pos, x);
        proof {
            p = old_p.insert(pos as int, i);
            assert forall|k: int| 0 <= k < p.len() implies #[trigger] out@[k] == s[p[k]] by {
                if k < pos {
                    assert(out@[k] == old_out[k]);
                } else if k > pos {
                    assert(out@[k] == old_out[k - 1]);
                }
            }
            assert forall|k: int| 0 <= k < p.len() implies i <= #[trigger] p[k] < n by {
                if k < pos {
                    assert(p[k] == old_p[k]);
                } else if k > pos {
                    assert(p[k] == old_p[k - 1]);
                }
            }
            assert forall|j: int| i <= j < n implies #[trigger] occurs_in(p, j) by {
                if j == i {
                    assert(p[pos as int] == i);
                } else {
                    assert(occurs_in(old_p, j));
                    let k0 = choose|k: int| 0 <= k < old_p.len() && #[trigger] old_p[k] == j;
                    if k0 < pos {
                        assert(p[k0] == j);
                    } else {
                        assert(p[k0 + 1] == j);
                    }
                }
            }
            // Priorities along the old order never increase.
            assert forall|k1: int, k2: int| 0 <= k1 <= k2 < old_p.len() implies rank_of(key, s[old_p[k1]]) >= rank_of(key, s[old_p[k2]]) by {
                if k1 < k2 {
                    assert(ranks_before(key, s, old_p[k1], old_p[k2]));
                }
            }
            assert forall|k1: int, k2: int| 0 <= k1 < k2 < p.len() implies #[trigger] ranks_before(key, s, p[k1], p[k2]) by {
                if k2 < pos {
                    assert(p[k1] == old_p[k1] && p[k2] == old_p[k2]);
                    assert(ranks_before(key, s, old_p[k1], old_p[k2]));
                } else if k2 == pos {
                    assert(p[k1] == old_p[k1]);
                    assert(old_out[k1] == s[old_p[k1]]);
                    assert(rank_of(key, old_out[k1]) > px);
                } else if k1 > pos {
                    assert(p[k1] == old_p[k1 - 1] && p[k2] == old_p[k2 - 1]);
                    assert(ranks_before(key, s, old_p[k1 - 1], old_p[k2 - 1]));
                } else if k1 == pos {
                    assert(p[k2] == old_p[k2 - 1]);
                    assert(old_out[pos as int] == s[old_p[pos as int]]);
                    assert(rank_of(key, old_out[pos as int]) <= px);
                    assert(rank_of(key, s[old_p[pos as int]]) >= rank_of(key, s[old_p[k2 - 1]]));
                    assert(i < old_p[k2 - 1]);
                } else {
                    assert(p[k1] == old_p[k1] && p[k2] == old_p[k2 - 1]);
                    assert(ranks_before(key, s, old_p[k1], old_p[k2 - 1]));
                }
            }
        }
    }
    assert(is_rank_order(key, s, p));
    assert(arranged(s, p, out@));
    out
}


/// Total real bytes of a list of items.
pub open spec fn sum_bytes(s: Seq<ScanItem>) -> nat
    decreases s.len(),
{
    if s.len() == 0 {
        0
    } else {
        sum_bytes(s.drop_last()) + s.last().real_bytes as nat
    }
}

/// The items of `s` that are selected and selectable, in order.
pub open spec fn chosen_items(s: Seq<ScanItem>) -> Seq<ScanItem>
    decreases s.len(),
{
    if s.len() == 0 {
        Seq::empty()
    } else if chosen(s.last()) {
        chosen_items(s.drop_last()).push(s.last())
    } else {
        chosen_items(s.drop_last())
    }
}

/// All items of all categories, in category order.
pub open spec fn all_items(v: Seq<Vec<ScanItem>>) -> Seq<ScanItem>
    decreases v.len(),
{
    if v.len() == 0 {
        Seq::empty()
    } else {
        all_items(v.drop_last()) + v.last()@
    }
}

/// What ingestion does to each item: Safe, selectable items become selected.
pub open spec fn preselect(i: ScanItem) -> ScanItem {
    if i.tier == SafetyTier::Safe && !i.is_keeper {
        ScanItem { selected: true, ..i }
    } else {
        i
    }
}

pub proof fn lemma_sum_bytes_concat(a: Seq<ScanItem>, b: Seq<ScanItem>)
    ensures
        sum_bytes(a + b) == sum_bytes(a) + sum_bytes(b),
    decreases b.len(),
{
    if b.len() > 0 {
        lemma_sum_bytes_concat(a, b.drop_last());
        assert((a + b).drop_last() == a + b.drop_last());
    } else {
        assert(a + b == a);
    }
}

pub proof fn lemma_sum_bytes_prefix(s: Seq<ScanItem>, i: int)
    requires
        0 <= i <= s.len(),
    ensures
        sum_bytes(s.take(i)) <= sum_bytes(s),
    decreases s.len() - i,
{
    if i < s.len() {
        lemma_sum_bytes_prefix(s, i + 1);
        assert(s.take(i + 1).drop_last() == s.take(i));
    } else {
        assert(s.take(i) == s);
    }
}

pub proof fn lemma_chosen_sum_le(s: Seq<ScanItem>)
    ensures
        sum_bytes(chosen_items(s)) <= sum_bytes(s),
    decreases s.len(),
{
    if s.len() > 0 {
        lemma_chosen_sum_le(s.drop_last());
        if chosen(s.last()) {
            assert(chosen_items(s).drop_last() == chosen_items(s.drop_last()));
        }
    }
}

/// Sums the real bytes of a list; the total must fit in 64 bits.
pub fn sum_item_bytes(v: &Vec<ScanItem>) -> (r: u64)
    requires
        sum_bytes(v@) <= u64::MAX,
    ensures
        r == sum_bytes(v@),
{
    let mut acc: u64 = 0;
    for i in 0..v.len()
        invariant
            sum_bytes(v@) <= u64::MAX,
            acc == sum_bytes(v@.take(i as int)),
    {
        assert(v@.take(i + 1).drop_last() == v@.take(i as int));
        proof {
            lemma_sum_bytes_prefix(v@, i + 1);
        }
        acc = acc + v[i].real_bytes;
    }
    assert(v@.take(v.len() as int) == v@);
    acc
}

/// The total real bytes of a list, when it fits in 64 bits.
pub fn checked_total(v: &Vec<ScanItem>) -> (r: Option<u64>)
    ensures
        r == (if sum_bytes(v@) <= u64::MAX {
            Some(sum_bytes(v@) as u64)
        } else {
            None
        }),
{
    let mut acc: u128 = 0;
    for i in 0..v.len()
        invariant
            acc == sum_bytes(v@.take(i as int)),
            acc <= u64::MAX,
    {
        assert(v@.take(i + 1).drop_last() == v@.take(i as int));
        acc = acc + v[i].real_bytes as u128;
        if acc > 0xffff_ffff_ffff_ffffu128 {
            proof {
                lemma_sum_bytes_prefix(v@, i + 1);
            }
            return None;
        }
    }
    assert(v@.take(v.len() as int) == v@);
    Some(acc as u64)
}

/// Aggregated scan output across all categories: one item list and one
/// status per category, indexed by display position.
#[derive(Debug, Clone)]
pub struct ScanResults {
    pub items: Vec<Vec<ScanItem>>,
    pub status: Vec<ScanStatus>,
}

impl ScanResults {
    /// One item list and one status per category.
    pub open spec fn wf(self) -> bool {
        self.items@.len() == 7 && self.status@.len() == 7
    }

    pub open spec fn cat_items(self, c: Category) -> Seq<ScanItem> {
        self.items@[cat_index(c)]@
    }

    pub open spec fn cat_status(self, c: Category) -> ScanStatus {
        self.status@[cat_index(c)]
    }

    /// Every item of every category, in category order.
    pub open spec fn every_item(self) -> Seq<ScanItem> {
        all_items(self.items@)
    }

    pub fn new() -> (r: Self)
        ensures
            r.wf(),
            forall|c: Category| (#[trigger] r.cat_items(c)).len() == 0,
            forall|c: Category| #[trigger] r.cat_status(c) == ScanStatus::Pending,
    {
        let mut items: Vec<Vec<ScanItem>> = Vec::new();
        let mut status: Vec<ScanStatus> = Vec::new();
        for i in 0..7usize
            invariant
                items@.len() == i,
                status@.len() == i,
                forall|k: int| 0 <= k < i ==> (#[trigger] items@[k])@.len() == 0,
                forall|k: int| 0 <= k < i ==> #[trigger] status@[k] == ScanStatus::Pending,
        {
            items.push(Vec::new());
            status.push(ScanStatus::Pending);
        }
        ScanResults { items, status }
    }

    pub fn items_for(&self, cat: Category) -> (r: &Vec<ScanItem>)
        requires
            self.wf(),
        ensures
            r@ == self.cat_items(cat),
    {
        &self.items[cat.index()]
    }

    /// Replaces the item list of one category.
    pub fn set_items(&mut self, cat: Category, items: Vec<ScanItem>)
        requires
            old(self).wf(),
        ensures
            final(self).wf(),
            final(self).cat_items(cat) == items@,
            forall|c: Category| c != cat ==> #[trigger] final(self).cat_items(c) == old(self).cat_items(c),
            final(self).status == old(self).status,
    {
        self.items.set(cat.index(), items);
    }

    /// Replaces the status of one category.
    pub fn set_status(&mut self, cat: Category, st: ScanStatus)
        requires
            old(self).wf(),
        ensures
            final(self).wf(),
            final(self).cat_status(cat) == st,
            forall|c: Category| c != cat ==> #[trigger] final(self).cat_status(c) == old(self).cat_status(c),
            final(self).items == old(self).items,
    {
        self.status.set(cat.index(), st);
    }

    pub fn total_bytes(&self, cat: Category) -> (r: u64)
        requires
            self.wf(),
            sum_bytes(self.cat_items(cat)) <= u64::MAX,
        ensures
            r == sum_bytes(self.cat_items(cat)),
    {
        sum_item_bytes(&self.items[cat.index()])
    }

    /// Copies of every selected, selectable item, in category order.
    pub fn selected_items(&self) -> (r: Vec<ScanItem>)
        requires
            self.wf(),
        ensures
            r@ == chosen_items(self.every_item()),
    {
        let mut r: Vec<ScanItem> = Vec::new();
        for c in 0..self.items.len()
            invariant
                r@ == chosen_items(all_items(self.items@.take(c as int))),
        {
            let v = &self.items[c];
            let ghost base = all_items(self.items@.take(c as int));
            assert(base + v@.take(0) == base);
            for j in 0..v.len()
                invariant
                    v@ == self.items@[c as int]@,
                    r@ == chosen_items(base + v@.take(j as int)),
            {
                assert(base + v@.take(j + 1) == (base + v@.take(j as int)).push(v@[j as int]));
                assert((base + v@.take(j + 1)).drop_last() == base + v@.take(j as int));
                if v[j].selected && v[j].selectable() {
                    r.push(v[j].clone());
                }
            }
            assert(v@.take(v@.len() as int) == v@);
            assert(self.items@.take(c + 1).drop_last() == self.items@.take(c as int));
        }
        assert(self.items@.take(self.items@.len() as int) == self.items@);
        r
    }

    /// Total real bytes of the selected, selectable items.
    pub fn selected_bytes(&self) -> (r: u64)
        requires
            self.wf(),
            sum_bytes(chosen_items(self.every_item())) <= u64::MAX,
        ensures
            r == sum_bytes(chosen_items(self.every_item())),
    {
        let v = self.selected_items();
        sum_item_bytes(&v)
    }

    /// Total real bytes across all categories.
    pub fn total_reclaimable(&self) -> (r: u64)
        requires
            self.wf(),
            sum_bytes(self.every_item()) <= u64::MAX,
        ensures
            r == sum_bytes(self.every_item()),
    {
        let mut acc: u64 = 0;
        for c in 0..self.items.len()
            invariant
                self.wf(),
                sum_bytes(all_items(self.items@)) <= u64::MAX,
                acc == sum_bytes(all_items(self.items@.take(c as int))),
        {
            proof {
                assert(self.items@.take(c + 1).drop_last() == self.items@.take(c as int));
                lemma_sum_bytes_concat(all_items(self.items@.take(c as int)), self.items@[c as int]@);
                lemma_all_items_prefix(self.items@, c + 1);
                lemma_sum_bytes_concat(all_items(self.items@.take(c + 1)), all_items_from(self.items@, c + 1));
            }
            acc = acc + sum_item_bytes(&self.items[c]);
        }
        assert(self.items@.take(self.items@.len() as int) == self.items@);
        acc
    }

    /// Whether every byte total of these results fits in 64 bits.
    pub fn totals_fit(&self) -> (r: bool)
        requires
            self.wf(),
        ensures
            r == (sum_bytes(self.every_item()) <= u64::MAX),
    {
        let mut acc: u128 = 0;
        for c in 0..self.items.len()
            invariant
                acc == sum_bytes(all_items(self.items@.take(c as int))),
                acc <= u64::MAX,
        {
            let v = &self.items[c];
            let ghost base = all_items(self.items@.take(c as int));
            assert(base + v@.take(0) == base);
            for j in 0..v.len()
                invariant
                    c < self.items@.len(),
                    base == all_items(self.items@.take(c as int)),
                    v@ == self.items@[c as int]@,
                    acc == sum_bytes(base + v@.take(j as int)),
                    acc <= u64::MAX,
            {
                assert((base + v@.take(j + 1)).drop_last() == base + v@.take(j as int));
                assert((base + v@.take(j + 1)).last() == v@[j as int]);
                acc = acc + v[j].real_bytes as u128;
                if acc > 0xffff_ffff_ffff_ffffu128 {
                    proof {
                        lemma_all_items_prefix(self.items@, c + 1);
                        assert(self.items@.take(c + 1).drop_last() == self.items@.take(c as int));
                        lemma_sum_bytes_prefix(v@, j + 1);
                        assert(v@.take(j + 1) == v@.take(j + 1));
                        lemma_sum_bytes_concat(base, v@.take(j + 1));
                        lemma_sum_bytes_concat(base, v@);
                        lemma_sum_bytes_concat(all_items(self.items@.take(c + 1)), all_items_from(self.items@, c + 1));
                    }
                    return false;
                }
            }
            assert(v@.take(v@.len() as int) == v@);
            assert(self.items@.take(c + 1).drop_last() == self.items@.take(c as int));
        }
        assert(self.items@.take(self.items@.len() as int) == self.items@);
        true
    }

    /// Takes the item list of one category out, leaving it empty.
    pub fn take_items(&mut self, cat: Category) -> (r: Vec<ScanItem>)
        requires
            old(self).wf(),
        ensures
            final(self).wf(),
            r@ == old(self).cat_items(cat),
            final(self).cat_items(cat) == Seq::<ScanItem>::empty(),
            forall|c: Category| c != cat ==> #[trigger] final(self).cat_items(c) == old(self).cat_items(c),
            final(self).status == old(self).status,
    {
        let mut v: Vec<ScanItem> = Vec::new();
        self.items.set_and_swap(cat.index(), &mut v);
        v
    }

    /// After a category scan completes: sort its items by priority (highest
    /// first, ties in scan order), pre-select Safe selectable items, store them
    /// and mark the category done.
    pub fn ingest(&mut self, cat: Category, items: Vec<ScanItem>)
        requires
            old(self).wf(),
        ensures
            ingested(*old(self), cat, items@, *final(self)),
    {
        let ghost s = items@;
        let sorted = sort_desc(items, RankKey::Priority);
        let ghost p = choose|p: Seq<int>| is_rank_order(RankKey::Priority, s, p) && arranged(s, p, sorted@);
        let mut out: Vec<ScanItem> = Vec::new();
        let mut rest = sorted;
        let ghost sorted_s = rest@;
        // Walk the sorted list, marking Safe selectable items as selected.
        let mut i: usize = 0;
        let n = rest.len();
        while i < n
            invariant
                n == sorted_s.len(),
                rest@.len() == n,
                i <= n,
                forall|k: int| i <= k < n ==> #[trigger] rest@[k] == sorted_s[k],
                out@.len() == i,
                forall|k: int| 0 <= k < i ==> #[trigger] out@[k] == preselect(sorted_s[k]),
            decreases n - i,
        {
            let mut item = ScanItem::new(String::new(), String::new(), 0, SafetyTier::Safe, cat);
            rest.set_and_swap(i, &mut item);
            if item.tier == SafetyTier::Safe && item.selectable() {
                item.selected = true;
            }
            out.push(item);
            i = i + 1;
        }
        self.items.set(cat.index(), out);
        self.status.set(cat.index(), ScanStatus::Done);
        assert(is_rank_order(RankKey::Priority, s, p));
    }
}

/// `b` is `a` after ingesting `items` for `cat`: the category holds the
/// items in descending priority order (ties in scan order), each with
/// [`preselect`] applied, and is done; every other category is unchanged.
pub open spec fn ingested(a: ScanResults, cat: Category, items: Seq<ScanItem>, b: ScanResults) -> bool {
    &&& b.wf()
    &&& exists|p: Seq<int>| #[trigger] is_rank_order(RankKey::Priority, items, p)
        && b.cat_items(cat).len() == p.len()
        && forall|k: int| 0 <= k < p.len() ==> #[trigger] b.cat_items(cat)[k] == preselect(items[p[k]])
    &&& b.cat_status(cat) == ScanStatus::Done
    &&& forall|c: Category| c != cat ==> #[trigger] b.cat_items(c) == a.cat_items(c)
    &&& forall|c: Category| c != cat ==> #[trigger] b.cat_status(c) == a.cat_status(c)
}

/// The items of all categories from position `c` on.
pub open spec fn all_items_from(v: Seq<Vec<ScanItem>>, c: int) -> Seq<ScanItem>
    decreases v.len() - c,
{
    if c >= v.len() || c < 0 {
        Seq::empty()
    } else {
        v[c]@ + all_items_from(v, c + 1)
    }
}

pub proof fn lemma_all_items_prefix(v: Seq<Vec<ScanItem>>, c: int)
    requires
        0 <= c <= v.len(),
    ensures
        all_items(v) == all_items(v.take(c)) + all_items_from(v, c),
    decreases v.len() - c,
{
    if c < v.len() {
        lemma_all_items_prefix(v, c + 1);
        assert(v.take(c + 1).drop_last() == v.take(c));
        assert(v.take(c + 1).last() == v[c]);
        assert(all_items(v.take(c + 1)) == all_items(v.take(c)) + v[c]@);
        assert(all_items(v.take(c)) + v[c]@ + all_items_from(v, c + 1) == all_items(v.take(c)) + (v[c]@ + all_items_from(v, c + 1)));
    } else {
        assert(v.take(c) == v);
        assert(all_items(v.take(c)) + Seq::<ScanItem>::empty() == all_items(v.take(c)));
    }
}

} // verus!
