//! Application state machine: keys, worker messages, selection and cleaning.
//!
//! The application's event loop hands every key press and worker message to
//! [`App`] and carries out the [`Effect`] it answers with (start the scanners,
//! run a clean, open System Settings, start Docker). Every transition is
//! stated as a relation between the state before and after it.
use vstd::prelude::*;
use crate::clean::CleanOptions;
use crate::config::{Config, DeleteMode};
use crate::event::{DiskInfo, WorkerMsg};
use crate::fs_util::{home_dir, human_size, human_size_spec, is_in_user_trash_in, trash_dir_spec};
use crate::model::{
    Category, ItemAction, SafetyTier, ScanItem, ScanResults, ScanStatus, cat_index, cat_title, chosen,
    chosen_items, ingested, selectable_item, sum_bytes, sum_item_bytes,
};
use crate::paths::{comps, path_starts_with, same_path};
use crate::privilege::PrivilegeInfo;
use crate::text::{dec, owned, push_decimal, push_str};
use crate::ui::detail::{panel_height_spec, rows_spec, visible_data_rows_for_terminal};
use crate::ui::modal::Modal;
use crate::ui::terminal::{PREFERRED_HEIGHT, PREFERRED_WIDTH};

verus! {

// ---------------------------------------------------------------------------
// Keys and effects
// ---------------------------------------------------------------------------

/// The key of a key press, as far as the application tells keys apart.
#[derive(Debug, Clone, Copy, PartialEq, Eq, Structural)]
pub enum KeyCode {
    Char(char),
    Enter,
    Esc,
    Up,
    Down,
    Tab,
    BackTab,
    Other,
}

/// A key press: the key and whether Control was held.
#[derive(Debug, Clone, Copy, PartialEq, Eq, Structural)]
pub struct Key {
    pub code: KeyCode,
    pub ctrl: bool,
}

/// Outside work the state machine asks the event loop to carry out.
#[derive(Debug)]
pub enum Effect {
    Nothing,
    /// Launch the scanners for these categories.
    StartScan(Vec<Category>),
    /// Clean these items with these options.
    Clean(Vec<ScanItem>, CleanOptions),
    /// Tell the workers that every category has finished.
    AnnounceScanComplete,
    /// Open the Full Disk Access pane of System Settings.
    OpenFdaSettings,
    /// Start Docker, wait for it, and report back with `DockerReady`.
    StartDocker,
}

/// What a key press leads to: whether to quit, and what to do outside.
#[derive(Debug)]
pub struct Reaction {
    pub quit: bool,
    pub effect: Effect,
}

// ---------------------------------------------------------------------------
// Item lists
// ---------------------------------------------------------------------------

pub open spec fn with_selected(i: ScanItem, b: bool) -> ScanItem {
    ScanItem { selected: b, ..i }
}

/// The selectable item at `row` flipped between selected and not.
pub open spec fn toggled_at(s: Seq<ScanItem>, row: int) -> Seq<ScanItem> {
    if 0 <= row < s.len() && selectable_item(s[row]) {
        s.update(row, with_selected(s[row], !s[row].selected))
    } else {
        s
    }
}

/// Every selectable item selected (or not); keepers untouched.
pub open spec fn all_set(s: Seq<ScanItem>, b: bool) -> Seq<ScanItem> {
    Seq::new(s.len(), |k: int| if selectable_item(s[k]) { with_selected(s[k], b) } else { s[k] })
}

/// Every selectable item flipped; keepers untouched.
pub open spec fn inverted(s: Seq<ScanItem>) -> Seq<ScanItem> {
    Seq::new(
        s.len(),
        |k: int| if selectable_item(s[k]) { with_selected(s[k], !s[k].selected) } else { s[k] },
    )
}

/// Exactly the Safe selectable items selected.
pub open spec fn safe_only(s: Seq<ScanItem>) -> Seq<ScanItem> {
    Seq::new(
        s.len(),
        |k: int| with_selected(s[k], s[k].tier == SafetyTier::Safe && selectable_item(s[k])),
    )
}

/// Nothing selected.
pub open spec fn cleared(s: Seq<ScanItem>) -> Seq<ScanItem> {
    Seq::new(s.len(), |k: int| with_selected(s[k], false))
}

/// The items that were not chosen for cleaning, in order.
pub open spec fn kept(s: Seq<ScanItem>) -> Seq<ScanItem>
    decreases s.len(),
{
    if s.len() == 0 {
        Seq::empty()
    } else if chosen(s.last()) {
        kept(s.drop_last())
    } else {
        kept(s.drop_last()).push(s.last())
    }
}

/// An item of a duplicate set after the keeper moved: the new keeper is
/// Risky and unselected, every other member Safe and selected.
pub open spec fn keeper_moved(i: ScanItem, is_keeper: bool) -> ScanItem {
    ScanItem {
        is_keeper: is_keeper,
        selected: !is_keeper,
        tier: if is_keeper {
            SafetyTier::Risky
        } else {
            SafetyTier::Safe
        },
        ..i
    }
}

/// The keeper of duplicate set `gid` moved to `row`.
pub open spec fn flipped(s: Seq<ScanItem>, row: int, gid: u64) -> Seq<ScanItem> {
    Seq::new(
        s.len(),
        |k: int| if s[k].group_id == Some(gid) { keeper_moved(s[k], k == row) } else { s[k] },
    )
}

fn set_all(v: &mut Vec<ScanItem>, b: bool)
    ensures
        final(v)@ == all_set(old(v)@, b),
{
    let ghost s = v@;
    let n = v.len();
    for i in 0..n
        invariant
            n == s.len(),
            v@.len() == n,
            forall|k: int| 0 <= k < i ==> #[trigger] v@[k] == (if selectable_item(s[k]) {
                with_selected(s[k], b)
            } else {
                s[k]
            }),
            forall|k: int| i <= k < n ==> #[trigger] v@[k] == s[k],
    {
        if v[i].selectable() {
            let mut it = v[i].clone();
            it.selected = b;
            v.set(i, it);
        }
    }
    assert(v@ =~= all_set(s, b));
}

fn invert_all(v: &mut Vec<ScanItem>)
    ensures
        final(v)@ == inverted(old(v)@),
{
    let ghost s = v@;
    let n = v.len();
    for i in 0..n
        invariant
            n == s.len(),
            v@.len() == n,
            forall|k: int| 0 <= k < i ==> #[trigger] v@[k] == (if selectable_item(s[k]) {
                with_selected(s[k], !s[k].selected)
            } else {
                s[k]
            }),
            forall|k: int| i <= k < n ==> #[trigger] v@[k] == s[k],
    {
        if v[i].selectable() {
            let mut it = v[i].clone();
            it.selected = !it.selected;
            v.set(i, it);
        }
    }
    assert(v@ =~= inverted(s));
}

fn select_safe(v: &mut Vec<ScanItem>)
    ensures
        final(v)@ == safe_only(old(v)@),
{
    let ghost s = v@;
    let n = v.len();
    for i in 0..n
        invariant
            n == s.len(),
            v@.len() == n,
            forall|k: int| 0 <= k < i ==> #[trigger] v@[k] == with_selected(
                s[k],
                s[k].tier == SafetyTier::Safe && selectable_item(s[k]),
            ),
            forall|k: int| i <= k < n ==> #[trigger] v@[k] == s[k],
    {
        let mut it = v[i].clone();
        it.selected = it.tier == SafetyTier::Safe && it.selectable();
        v.set(i, it);
    }
    assert(v@ =~= safe_only(s));
}

fn clear_all(v: &mut Vec<ScanItem>)
    ensures
        final(v)@ == cleared(old(v)@),
{
    let ghost s = v@;
    let n = v.len();
    for i in 0..n
        invariant
            n == s.len(),
            v@.len() == n,
            forall|k: int| 0 <= k < i ==> #[trigger] v@[k] == with_selected(s[k], false),
            forall|k: int| i <= k < n ==> #[trigger] v@[k] == s[k],
    {
        let mut it = v[i].clone();
        it.selected = false;
        v.set(i, it);
    }
    assert(v@ =~= cleared(s));
}

fn keep_unchosen(v: &Vec<ScanItem>) -> (r: Vec<ScanItem>)
    ensures
        r@ == kept(v@),
{
    let mut r: Vec<ScanItem> = Vec::new();
    for j in 0..v.len()
        invariant
            r@ == kept(v@.take(j as int)),
    {
        assert(v@.take(j + 1).drop_last() == v@.take(j as int));
        if !(v[j].selected && v[j].selectable()) {
            r.push(v[j].clone());
        }
    }
    assert(v@.take(v@.len() as int) == v@);
    r
}

fn flip_group(v: &mut Vec<ScanItem>, row: usize, gid: u64)
    ensures
        final(v)@ == flipped(old(v)@, row as int, gid),
{
    let ghost s = v@;
    let n = v.len();
    for i in 0..n
        invariant
            n == s.len(),
            v@.len() == n,
            forall|k: int| 0 <= k < i ==> #[trigger] v@[k] == (if s[k].group_id == Some(gid) {
                keeper_moved(s[k], k == row)
            } else {
                s[k]
            }),
            forall|k: int| i <= k < n ==> #[trigger] v@[k] == s[k],
    {
        let member = match v[i].group_id {
            Some(g) => g == gid,
            None => false,
        };
        if member {
            let mut it = v[i].clone();
            it.is_keeper = i == row;
            it.selected = i != row;
            it.tier = if i == row {
                SafetyTier::Risky
            } else {
                SafetyTier::Safe
            };
            v.set(i, it);
        }
    }
    assert(v@ =~= flipped(s, row as int, gid));
}

// ---------------------------------------------------------------------------
// Category-wide changes
// ---------------------------------------------------------------------------

/// `b` holds `f` applied to every category's items of `a`, with the same
/// statuses.
pub open spec fn mapped_items(a: ScanResults, b: ScanResults, f: spec_fn(Category, Seq<ScanItem>) -> Seq<ScanItem>) -> bool {
    &&& b.wf()
    &&& b.status == a.status
    &&& forall|c: Category| #[trigger] b.cat_items(c) == f(c, a.cat_items(c))
}

impl ScanResults {
    fn select_safe_everywhere(&mut self)
        requires
            old(self).wf(),
        ensures
            mapped_items(*old(self), *final(self), |c: Category, s: Seq<ScanItem>| safe_only(s)),
    {
        let ghost a = *self;
        for i in 0..7usize
            invariant
                self.wf(),
                self.status == a.status,
                forall|c: Category| cat_index(c) < i ==> #[trigger] self.cat_items(c) == safe_only(a.cat_items(c)),
                forall|c: Category| cat_index(c) >= i ==> #[trigger] self.cat_items(c) == a.cat_items(c),
        {
            let c = Category::from_index(i);
            let mut v = self.take_items(c);
            select_safe(&mut v);
            self.set_items(c, v);
        }
    }

    fn clear_everywhere(&mut self)
        requires
            old(self).wf(),
        ensures
            mapped_items(*old(self), *final(self), |c: Category, s: Seq<ScanItem>| cleared(s)),
    {
        let ghost a = *self;
        for i in 0..7usize
            invariant
                self.wf(),
                self.status == a.status,
                forall|c: Category| cat_index(c) < i ==> #[trigger] self.cat_items(c) == cleared(a.cat_items(c)),
                forall|c: Category| cat_index(c) >= i ==> #[trigger] self.cat_items(c) == a.cat_items(c),
        {
            let c = Category::from_index(i);
            let mut v = self.take_items(c);
            clear_all(&mut v);
            self.set_items(c, v);
        }
    }

    fn drop_chosen_everywhere(&mut self)
        requires
            old(self).wf(),
        ensures
            mapped_items(*old(self), *final(self), |c: Category, s: Seq<ScanItem>| cleared(kept(s))),
    {
        let ghost a = *self;
        for i in 0..7usize
            invariant
                self.wf(),
                self.status == a.status,
                forall|c: Category| cat_index(c) < i ==> #[trigger] self.cat_items(c) == cleared(kept(a.cat_items(c))),
                forall|c: Category| cat_index(c) >= i ==> #[trigger] self.cat_items(c) == a.cat_items(c),
        {
            let c = Category::from_index(i);
            let v = self.take_items(c);
            let mut w = keep_unchosen(&v);
            clear_all(&mut w);
            self.set_items(c, w);
        }
    }
}

// ---------------------------------------------------------------------------
// The application state
// ---------------------------------------------------------------------------

pub struct App {
    pub config: Config,
    pub results: ScanResults,
    pub current_category: Category,
    pub selected_row: usize,
    pub scroll: usize,
    pub scanning: bool,
    pub cleaning: bool,
    pub tick: u64,
    pub disk: DiskInfo,
    pub privilege: PrivilegeInfo,
    pub modal: Modal,
    pub status_line: String,
    pub show_dashboard: bool,
    /// The categories scanned, in the order Tab walks them.
    pub categories: Vec<Category>,
    /// The categories whose scan has finished (each at most once).
    pub finished: Vec<Category>,
    pub dry_run: bool,
    pub pending_clean_permanent: bool,
    pub terminal_width: u16,
    pub terminal_height: u16,
    pub detail_visible_rows: usize,
}

/// Results as a new scan starts them: no items, every category pending.
pub open spec fn fresh(r: ScanResults) -> bool {
    &&& r.wf()
    &&& forall|c: Category| (#[trigger] r.cat_items(c)).len() == 0
    &&& forall|c: Category| #[trigger] r.cat_status(c) == ScanStatus::Pending
}

/// `b` differs from `a` in its item lists only, each category's list being
/// `f` of the old one.
pub open spec fn items_become(a: App, b: App, f: spec_fn(Category, Seq<ScanItem>) -> Seq<ScanItem>) -> bool {
    &&& b == (App { results: b.results, ..a })
    &&& mapped_items(a.results, b.results, f)
}

pub open spec fn toggle_post(a: App, b: App) -> bool {
    items_become(
        a,
        b,
        |c: Category, s: Seq<ScanItem>|
            if c == a.current_category {
                toggled_at(s, a.selected_row as int)
            } else {
                s
            },
    )
}

pub open spec fn select_all_post(a: App, b: App, select: bool) -> bool {
    items_become(
        a,
        b,
        |c: Category, s: Seq<ScanItem>|
            if c == a.current_category {
                all_set(s, select)
            } else {
                s
            },
    )
}

pub open spec fn invert_post(a: App, b: App) -> bool {
    items_become(
        a,
        b,
        |c: Category, s: Seq<ScanItem>|
            if c == a.current_category {
                inverted(s)
            } else {
                s
            },
    )
}

pub open spec fn safe_post(a: App, b: App) -> bool {
    items_become(a, b, |c: Category, s: Seq<ScanItem>| safe_only(s))
}

pub open spec fn clear_post(a: App, b: App) -> bool {
    items_become(a, b, |c: Category, s: Seq<ScanItem>| cleared(s))
}

pub open spec fn remove_cleaned_post(a: App, b: App) -> bool {
    items_become(a, b, |c: Category, s: Seq<ScanItem>| cleared(kept(s)))
}

/// Whether the cursor is on a duplicate that belongs to a set.
pub open spec fn on_duplicate_set(a: App) -> bool {
    let s = a.results.cat_items(Category::Duplicates);
    a.current_category == Category::Duplicates && a.selected_row < s.len()
        && s[a.selected_row as int].group_id is Some
}

pub open spec fn flip_post(a: App, b: App) -> bool {
    let s = a.results.cat_items(Category::Duplicates);
    if on_duplicate_set(a) {
        let gid = s[a.selected_row as int].group_id->0;
        items_become(
            a,
            b,
            |c: Category, t: Seq<ScanItem>|
                if c == Category::Duplicates {
                    flipped(t, a.selected_row as int, gid)
                } else {
                    t
                },
        )
    } else {
        b == a
    }
}

/// `row + delta` kept within `0..len`.
pub open spec fn clamp_row(row: int, len: int) -> int {
    if row < 0 {
        0
    } else if row > len - 1 {
        len - 1
    } else {
        row
    }
}

/// The scroll offset after the cursor moved by `delta` to `row`: one line
/// down when the cursor left the bottom of the view (never past the last
/// screenful), one line up when it left the top, else unchanged.
pub open spec fn scroll_after(scroll: int, row: int, delta: int, len: int, visible_rows: int) -> int {
    let visible = if visible_rows < 1 {
        1
    } else {
        visible_rows
    };
    let max_scroll = if len > visible {
        len - visible
    } else {
        0
    };
    if delta > 0 && row >= scroll + visible {
        if scroll + 1 < max_scroll {
            scroll + 1
        } else {
            max_scroll
        }
    } else if delta < 0 && row < scroll {
        if scroll >= 1 {
            scroll - 1
        } else {
            0
        }
    } else {
        scroll
    }
}

pub open spec fn move_post(a: App, b: App, delta: int) -> bool {
    let len = a.results.cat_items(a.current_category).len() as int;
    if len == 0 {
        b == a
    } else {
        let row = clamp_row(a.selected_row + delta, len);
        b == (App {
            selected_row: row as usize,
            scroll: scroll_after(a.scroll as int, row, delta, len, a.detail_visible_rows as int) as usize,
            ..a
        })
    }
}

/// The first position of `c` in `s`, or -1.
pub open spec fn position_of(s: Seq<Category>, c: Category) -> int
    decreases s.len(),
{
    if s.len() == 0 {
        -1
    } else {
        let p = position_of(s.drop_last(), c);
        if p >= 0 {
            p
        } else if s.last() == c {
            s.len() - 1
        } else {
            -1
        }
    }
}

/// The category `delta` steps from the current one (from the first when the
/// current one is not in the list), wrapping around.
pub open spec fn next_index(a: App, delta: int) -> int {
    let p = position_of(a.categories@, a.current_category);
    let pos = if p < 0 {
        0
    } else {
        p
    };
    (pos + delta) % (a.categories@.len() as int)
}

pub open spec fn next_post(a: App, b: App, delta: int) -> bool {
    b == (App {
        current_category: a.categories@[next_index(a, delta)],
        selected_row: 0,
        scroll: 0,
        show_dashboard: false,
        ..a
    })
}

/// Every item has this action.
pub open spec fn all_action(s: Seq<ScanItem>, act: ItemAction) -> bool {
    forall|k: int| 0 <= k < s.len() ==> (#[trigger] s[k]).action == act
}

/// Every item is in the Trash category or inside the Trash of home `home`.
pub open spec fn all_in_trash(s: Seq<ScanItem>, home: Seq<char>) -> bool {
    forall|k: int|
        0 <= k < s.len() ==> path_starts_with((#[trigger] s[k]).path@, trash_dir_spec(home))
            || s[k].category == Category::Trash
}

/// Whether cleaning `sel` goes past the Trash: when forced, when it only
/// empties the Trash, or when everything already is in the Trash.
pub open spec fn confirm_permanent(sel: Seq<ScanItem>, force: bool, home: Seq<char>) -> bool {
    force || all_action(sel, ItemAction::EmptyTrash) || all_in_trash(sel, home)
}

pub open spec fn confirm_modal(sel: Seq<ScanItem>, force: bool, home: Seq<char>) -> Modal {
    Modal::ConfirmClean {
        count: sel.len() as usize,
        bytes: sum_bytes(sel) as u64,
        permanent: confirm_permanent(sel, force, home),
        empty_trash: all_action(sel, ItemAction::EmptyTrash),
        evict_only: all_action(sel, ItemAction::Evict),
    }
}

/// With nothing selected nothing happens; otherwise the confirmation for the
/// selection opens (for the user's home directory `home`).
pub open spec fn confirm_post(a: App, b: App, force: bool) -> bool {
    let sel = chosen_items(a.results.every_item());
    if sel.len() == 0 {
        b == a
    } else {
        exists|home: Seq<char>|
            b == (App {
                modal: confirm_modal(sel, force, home),
                pending_clean_permanent: confirm_permanent(sel, force, home),
                ..a
            })
    }
}

/// With nothing selected nothing happens; otherwise the selection is handed
/// to the cleaner, permanently if confirmed so or configured so.
pub open spec fn clean_post(a: App, b: App, e: Effect) -> bool {
    let sel = chosen_items(a.results.every_item());
    if sel.len() == 0 {
        b == a && e is Nothing
    } else {
        &&& b == (App { cleaning: true, pending_clean_permanent: false, ..a })
        &&& e matches Effect::Clean(items, opts) && items@ == sel && opts == (CleanOptions {
            permanent: a.pending_clean_permanent || a.config.delete_mode == DeleteMode::Permanent,
            dry_run: a.dry_run,
            mode: a.config.delete_mode,
        })
    }
}

pub open spec fn start_post(a: App, b: App, e: Effect) -> bool {
    &&& b == (App {
        scanning: true,
        finished: b.finished,
        results: b.results,
        show_dashboard: false,
        status_line: b.status_line,
        ..a
    })
    &&& b.finished@.len() == 0
    &&& fresh(b.results)
    &&& b.status_line@ == "Starting scan\u{2026}"@
    &&& e matches Effect::StartScan(cats) && cats@ == a.categories@
}

/// `f` with `c` added unless already there.
pub open spec fn inserted(f: Seq<Category>, c: Category) -> Seq<Category> {
    if f.contains(c) {
        f
    } else {
        f.push(c)
    }
}

fn copy_categories(v: &Vec<Category>) -> (r: Vec<Category>)
    ensures
        r@ == v@,
{
    let mut r: Vec<Category> = Vec::new();
    for i in 0..v.len()
        invariant
            r@ == v@.take(i as int),
    {
        r.push(v[i]);
        assert(v@.take(i + 1) == v@.take(i as int).push(v@[i as int]));
    }
    assert(v@.take(v@.len() as int) == v@);
    r
}

fn insert_category(f: &mut Vec<Category>, c: Category)
    ensures
        final(f)@ == inserted(old(f)@, c),
{
    for i in 0..f.len()
        invariant
            forall|k: int| 0 <= k < i ==> f@[k] != c,
    {
        if f[i] == c {
            assert(f@.contains(c));
            return;
        }
    }
    assert(!f@.contains(c));
    f.push(c);
}

impl App {
    pub fn new(config: Config, privilege: PrivilegeInfo, categories: Vec<Category>, dry_run: bool) -> (r: App)
        ensures
            fresh(r.results),
            r.config == config,
            r.current_category == Category::Caches,
            r.selected_row == 0,
            r.scroll == 0,
            !r.scanning,
            !r.cleaning,
            r.tick == 0,
            r.disk == (DiskInfo { total: 0, free: 0 }),
            r.privilege == privilege,
            r.modal == (if !privilege.full_disk_access {
                Modal::Fda
            } else {
                Modal::Closed
            }),
            r.status_line@.len() == 0,
            r.show_dashboard,
            r.categories == categories,
            r.finished@.len() == 0,
            r.dry_run == dry_run,
            !r.pending_clean_permanent,
            r.terminal_width == PREFERRED_WIDTH,
            r.terminal_height == PREFERRED_HEIGHT,
            r.detail_visible_rows == rows_spec(panel_height_spec(PREFERRED_WIDTH, PREFERRED_HEIGHT) as int),
    {
        let modal = if !privilege.full_disk_access {
            Modal::Fda
        } else {
            Modal::Closed
        };
        App {
            config,
            results: ScanResults::new(),
            current_category: Category::Caches,
            selected_row: 0,
            scroll: 0,
            scanning: false,
            cleaning: false,
            tick: 0,
            disk: DiskInfo { total: 0, free: 0 },
            privilege,
            modal,
            status_line: String::new(),
            show_dashboard: true,
            categories,
            finished: Vec::new(),
            dry_run,
            pending_clean_permanent: false,
            terminal_width: PREFERRED_WIDTH,
            terminal_height: PREFERRED_HEIGHT,
            detail_visible_rows: visible_data_rows_for_terminal(PREFERRED_WIDTH, PREFERRED_HEIGHT),
        }
    }

    /// Resets the results for a new scan and asks for the scanners.
    pub fn start_scan(&mut self) -> (e: Effect)
        ensures
            start_post(*old(self), *final(self), e),
    {
        self.scanning = true;
        self.finished = Vec::new();
        self.results = ScanResults::new();
        self.show_dashboard = false;
        self.status_line = owned("Starting scan\u{2026}");
        Effect::StartScan(copy_categories(&self.categories))
    }

    /// Advances the animation tick (wrapping).
    pub fn on_tick(&mut self)
        ensures
            *final(self) == (App {
                tick: if old(self).tick == u64::MAX {
                    0
                } else {
                    (old(self).tick + 1) as u64
                },
                ..*old(self)
            }),
    {
        self.tick = if self.tick == u64::MAX {
            0
        } else {
            self.tick + 1
        };
    }

    /// Records the terminal's new size.
    pub fn resize(&mut self, width: u16, height: u16)
        ensures
            *final(self) == (App { terminal_width: width, terminal_height: height, ..*old(self) }),
    {
        self.terminal_width = width;
        self.terminal_height = height;
    }

    pub fn toggle_current(&mut self)
        requires
            old(self).results.wf(),
        ensures
            toggle_post(*old(self), *final(self)),
    {
        let c = self.current_category;
        let row = self.selected_row;
        let mut v = self.results.take_items(c);
        if row < v.len() && v[row].selectable() {
            let mut it = v[row].clone();
            it.selected = !it.selected;
            v.set(row, it);
        }
        self.results.set_items(c, v);
    }

    pub fn select_all_category(&mut self, select: bool)
        requires
            old(self).results.wf(),
        ensures
            select_all_post(*old(self), *final(self), select),
    {
        let c = self.current_category;
        let mut v = self.results.take_items(c);
        set_all(&mut v, select);
        self.results.set_items(c, v);
    }

    pub fn select_all_safe(&mut self)
        requires
            old(self).results.wf(),
        ensures
            safe_post(*old(self), *final(self)),
    {
        self.results.select_safe_everywhere();
    }

    pub fn clear_selection(&mut self)
        requires
            old(self).results.wf(),
        ensures
            clear_post(*old(self), *final(self)),
    {
        self.results.clear_everywhere();
    }

    pub fn invert_category(&mut self)
        requires
            old(self).results.wf(),
        ensures
            invert_post(*old(self), *final(self)),
    {
        let c = self.current_category;
        let mut v = self.results.take_items(c);
        invert_all(&mut v);
        self.results.set_items(c, v);
    }

    /// After a clean finishes: drop the items that were cleaned and clear
    /// the selection everywhere.
    pub fn remove_cleaned(&mut self)
        requires
            old(self).results.wf(),
        ensures
            remove_cleaned_post(*old(self), *final(self)),
    {
        self.results.drop_chosen_everywhere();
    }

    /// Makes the duplicate under the cursor the keeper of its set.
    pub fn flip_keeper(&mut self)
        requires
            old(self).results.wf(),
        ensures
            flip_post(*old(self), *final(self)),
    {
        if self.current_category != Category::Duplicates {
            return;
        }
        let row = self.selected_row;
        let gid = {
            let items = self.results.items_for(Category::Duplicates);
            if row < items.len() {
                items[row].group_id
            } else {
                None
            }
        };
        match gid {
            None => {},
            Some(g) => {
                let mut v = self.results.take_items(Category::Duplicates);
                flip_group(&mut v, row, g);
                self.results.set_items(Category::Duplicates, v);
            },
        }
    }

    /// Moves the cursor by `delta` rows within the current category, scrolling
    /// by one line when it leaves the view.
    pub fn move_row(&mut self, delta: i32)
        requires
            old(self).results.wf(),
        ensures
            move_post(*old(self), *final(self), delta as int),
    {
        let len = self.results.items_for(self.current_category).len();
        if len == 0 {
            return;
        }
        let target = self.selected_row as i128 + delta as i128;
        let row: usize = if target < 0 {
            0
        } else if target > (len - 1) as i128 {
            len - 1
        } else {
            target as usize
        };
        self.selected_row = row;
        let visible: usize = if self.detail_visible_rows < 1 {
            1
        } else {
            self.detail_visible_rows
        };
        let max_scroll: usize = if len > visible {
            len - visible
        } else {
            0
        };
        if delta > 0 && (row as u128) >= (self.scroll as u128) + (visible as u128) {
            self.scroll = if (self.scroll as u128) + 1 < (max_scroll as u128) {
                self.scroll + 1
            } else {
                max_scroll
            };
        } else if delta < 0 && row < self.scroll {
            self.scroll = self.scroll - 1;
        }
    }

    /// Moves to the category `delta` steps away in the scanned list.
    pub fn next_category(&mut self, delta: i32)
        requires
            old(self).categories@.len() > 0,
        ensures
            next_post(*old(self), *final(self), delta as int),
    {
        let cats = &self.categories;
        let mut pos: usize = 0;
        let mut found = false;
        for i in 0..cats.len()
            invariant
                found == (position_of(cats@.take(i as int), self.current_category) >= 0),
                found ==> pos == position_of(cats@.take(i as int), self.current_category),
                !found ==> pos == 0,
                found ==> pos < cats@.len(),
        {
            assert(cats@.take(i + 1).drop_last() == cats@.take(i as int));
            assert(cats@.take(i + 1).last() == cats@[i as int]);
            if !found && cats[i] == self.current_category {
                pos = i;
                found = true;
            }
        }
        assert(cats@.take(cats@.len() as int) == cats@);
        let m = cats.len() as i128;
        let x = pos as i128 + delta as i128;
        let next: usize = if x >= 0 {
            ((x as u128) % (m as u128)) as usize
        } else {
            let k = ((0 - x) as u128) % (m as u128);
            proof {
                lemma_negative_mod(x as int, m as int, k as int);
            }
            if k == 0 {
                0
            } else {
                ((m as u128) - k) as usize
            }
        };
        self.current_category = self.categories[next];
        self.selected_row = 0;
        self.scroll = 0;
        self.show_dashboard = false;
    }
}

/// Whether every item of `sel` empties the Trash, every one evicts, and every
/// one lies in the Trash (of home `home`) or belongs to the Trash category.
fn survey_selection(sel: &Vec<ScanItem>, home: &str) -> (r: (bool, bool, bool))
    ensures
        r.0 == all_action(sel@, ItemAction::EmptyTrash),
        r.1 == all_action(sel@, ItemAction::Evict),
        r.2 == all_in_trash(sel@, home@),
{
    let mut empty_trash = true;
    let mut evict_only = true;
    let mut in_trash = true;
    for i in 0..sel.len()
        invariant
            empty_trash == all_action(sel@.take(i as int), ItemAction::EmptyTrash),
            evict_only == all_action(sel@.take(i as int), ItemAction::Evict),
            in_trash == all_in_trash(sel@.take(i as int), home@),
    {
        let ghost t = sel@.take(i as int);
        let ghost t1 = sel@.take(i + 1);
        assert(t1 == t.push(sel@[i as int]));
        let it = &sel[i];
        empty_trash = empty_trash && it.action == ItemAction::EmptyTrash;
        evict_only = evict_only && it.action == ItemAction::Evict;
        let here = is_in_user_trash_in(it.path.as_str(), home) || it.category == Category::Trash;
        in_trash = in_trash && here;
        proof {
            assert(t1[i as int] == sel@[i as int]);
            if !empty_trash && all_action(t, ItemAction::EmptyTrash) {
                assert(!all_action(t1, ItemAction::EmptyTrash));
            }
            if !evict_only && all_action(t, ItemAction::Evict) {
                assert(!all_action(t1, ItemAction::Evict));
            }
            if !in_trash && all_in_trash(t, home@) {
                assert(!all_in_trash(t1, home@));
            }
        }
    }
    assert(sel@.take(sel@.len() as int) == sel@);
    (empty_trash, evict_only, in_trash)
}

impl App {
    /// Opens the clean confirmation for the current selection (nothing
    /// happens when nothing is selected).
    pub fn open_clean_confirm(&mut self, force_permanent: bool)
        requires
            old(self).results.wf(),
            sum_bytes(chosen_items(old(self).results.every_item())) <= u64::MAX,
        ensures
            confirm_post(*old(self), *final(self), force_permanent),
    {
        let selected = self.results.selected_items();
        if selected.len() == 0 {
            return;
        }
        let home = home_dir();
        let (empty_trash, evict_only, in_trash) = survey_selection(&selected, home.as_str());
        let permanent = force_permanent || empty_trash || in_trash;
        self.pending_clean_permanent = permanent;
        let bytes = sum_item_bytes(&selected);
        self.modal = Modal::ConfirmClean { count: selected.len(), bytes, permanent, empty_trash, evict_only };
        assert(*self == (App {
            modal: confirm_modal(selected@, force_permanent, home@),
            pending_clean_permanent: confirm_permanent(selected@, force_permanent, home@),
            ..*old(self)
        }));
    }

    /// Hands the selection to the cleaner.
    pub fn do_clean(&mut self) -> (e: Effect)
        requires
            old(self).results.wf(),
        ensures
            clean_post(*old(self), *final(self), e),
    {
        let selected = self.results.selected_items();
        if selected.len() == 0 {
            return Effect::Nothing;
        }
        self.cleaning = true;
        let permanent = self.pending_clean_permanent || self.config.delete_mode == DeleteMode::Permanent;
        let opts = CleanOptions { permanent, dry_run: self.dry_run, mode: self.config.delete_mode };
        self.pending_clean_permanent = false;
        Effect::Clean(selected, opts)
    }
}

// ---------------------------------------------------------------------------
// Worker messages
// ---------------------------------------------------------------------------

/// The status line while a category scan starts.
pub open spec fn started_line(c: Category) -> Seq<char> {
    "Scanning "@ + cat_title(c) + "\u{2026}"@
}

/// The status line while a category scan streams.
pub open spec fn progress_line(c: Category, found: nat, bytes: nat) -> Seq<char> {
    "Scanning "@ + cat_title(c) + " \u{2014} "@ + dec(found) + " items, "@ + human_size_spec(bytes)
}

/// `b` has the items of `a` and status `st` for `c`, every other status as
/// in `a`.
pub open spec fn status_set(a: ScanResults, c: Category, st: ScanStatus, b: ScanResults) -> bool {
    &&& b.wf()
    &&& b.items == a.items
    &&& b.cat_status(c) == st
    &&& forall|d: Category| d != c ==> #[trigger] b.cat_status(d) == a.cat_status(d)
}

/// The reaction to a worker message. A finished or skipped category counts
/// once; when every scanned category has counted, scanning is over and the
/// dashboard shows.
pub open spec fn worker_post(a: App, msg: WorkerMsg, b: App, e: Effect) -> bool {
    match msg {
        WorkerMsg::Disk(d) => b == (App { disk: d, ..a }) && e is Nothing,
        WorkerMsg::ScanStarted(c) => {
            &&& b == (App { results: b.results, status_line: b.status_line, ..a })
            &&& status_set(a.results, c, ScanStatus::Scanning { found: 0, bytes: 0 }, b.results)
            &&& b.status_line@ == started_line(c)
            &&& e is Nothing
        },
        WorkerMsg::ScanProgress { category, found, bytes } => {
            &&& b == (App { results: b.results, status_line: b.status_line, ..a })
            &&& status_set(a.results, category, ScanStatus::Scanning { found, bytes }, b.results)
            &&& b.status_line@ == progress_line(category, found as nat, bytes as nat)
            &&& e is Nothing
        },
        WorkerMsg::ScanDone { category, items } => {
            let f = inserted(a.finished@, category);
            &&& ingested(a.results, category, items@, b.results)
            &&& b.finished@ == f
            &&& if f.len() >= a.categories@.len() {
                &&& b == (App {
                    results: b.results,
                    finished: b.finished,
                    scanning: false,
                    show_dashboard: true,
                    status_line: b.status_line,
                    ..a
                })
                &&& b.status_line@ == "Scan complete"@
                &&& e is AnnounceScanComplete
            } else {
                b == (App { results: b.results, finished: b.finished, ..a }) && e is Nothing
            }
        },
        WorkerMsg::ScanSkipped { category, reason } => {
            let f = inserted(a.finished@, category);
            &&& status_set(a.results, category, ScanStatus::Skipped(reason), b.results)
            &&& b.finished@ == f
            &&& if f.len() >= a.categories@.len() {
                b == (App {
                    results: b.results,
                    finished: b.finished,
                    scanning: false,
                    show_dashboard: true,
                    ..a
                })
            } else {
                b == (App { results: b.results, finished: b.finished, ..a })
            }
            &&& e is Nothing
        },
        WorkerMsg::ScanComplete => b == a && e is Nothing,
        WorkerMsg::CleanProgress { done, total, freed } => {
            b == (App { modal: Modal::CleanProgress { done, total, freed }, ..a }) && e is Nothing
        },
        WorkerMsg::CleanDone { freed, failures } => {
            &&& remove_cleaned_post(
                App { cleaning: false, modal: Modal::CleanDone { freed, failures }, ..a },
                b,
            )
            &&& e is Nothing
        },
        WorkerMsg::DockerReady(ok) => if ok {
            start_post(a, b, e)
        } else {
            b == a && e is Nothing
        },
    }
}

impl App {
    fn on_scan_started(&mut self, cat: Category) -> (e: Effect)
        requires
            old(self).results.wf(),
        ensures
            worker_post(*old(self), WorkerMsg::ScanStarted(cat), *final(self), e),
    {
        self.results.set_status(cat, ScanStatus::Scanning { found: 0, bytes: 0 });
        let mut line = String::new();
        push_str(&mut line, "Scanning ");
        push_str(&mut line, cat.title());
        push_str(&mut line, "\u{2026}");
        self.status_line = line;
        Effect::Nothing
    }

    fn on_scan_progress(&mut self, category: Category, found: usize, bytes: u64) -> (e: Effect)
        requires
            old(self).results.wf(),
        ensures
            worker_post(*old(self), WorkerMsg::ScanProgress { category, found, bytes }, *final(self), e),
    {
        self.results.set_status(category, ScanStatus::Scanning { found, bytes });
        let mut line = String::new();
        push_str(&mut line, "Scanning ");
        push_str(&mut line, category.title());
        push_str(&mut line, " \u{2014} ");
        push_decimal(&mut line, found as u64);
        push_str(&mut line, " items, ");
        let h = human_size(bytes);
        push_str(&mut line, h.as_str());
        self.status_line = line;
        Effect::Nothing
    }

    fn on_scan_done(&mut self, category: Category, items: Vec<ScanItem>) -> (e: Effect)
        requires
            old(self).results.wf(),
        ensures
            worker_post(*old(self), WorkerMsg::ScanDone { category, items }, *final(self), e),
    {
        self.results.ingest(category, items);
        insert_category(&mut self.finished, category);
        if self.finished.len() >= self.categories.len() {
            self.scanning = false;
            self.show_dashboard = true;
            self.status_line = owned("Scan complete");
            Effect::AnnounceScanComplete
        } else {
            Effect::Nothing
        }
    }

    fn on_scan_skipped(&mut self, category: Category, reason: String) -> (e: Effect)
        requires
            old(self).results.wf(),
        ensures
            worker_post(*old(self), WorkerMsg::ScanSkipped { category, reason }, *final(self), e),
    {
        self.results.set_status(category, ScanStatus::Skipped(reason));
        insert_category(&mut self.finished, category);
        if self.finished.len() >= self.categories.len() {
            self.scanning = false;
            self.show_dashboard = true;
        }
        Effect::Nothing
    }

    fn on_clean_done(&mut self, freed: u64, failures: Vec<String>) -> (e: Effect)
        requires
            old(self).results.wf(),
        ensures
            worker_post(*old(self), WorkerMsg::CleanDone { freed, failures }, *final(self), e),
    {
        self.cleaning = false;
        self.modal = Modal::CleanDone { freed, failures };
        self.remove_cleaned();
        Effect::Nothing
    }

    /// Reacts to a message from a scan or clean worker.
    pub fn on_worker(&mut self, msg: WorkerMsg) -> (e: Effect)
        requires
            old(self).results.wf(),
        ensures
            worker_post(*old(self), msg, *final(self), e),
    {
        match msg {
            WorkerMsg::Disk(d) => {
                self.disk = d;
                Effect::Nothing
            },
            WorkerMsg::ScanStarted(cat) => self.on_scan_started(cat),
            WorkerMsg::ScanProgress { category, found, bytes } => self.on_scan_progress(category, found, bytes),
            WorkerMsg::ScanDone { category, items } => self.on_scan_done(category, items),
            WorkerMsg::ScanSkipped { category, reason } => self.on_scan_skipped(category, reason),
            WorkerMsg::ScanComplete => Effect::Nothing,
            WorkerMsg::CleanProgress { done, total, freed } => {
                self.modal = Modal::CleanProgress { done, total, freed };
                Effect::Nothing
            },
            WorkerMsg::CleanDone { freed, failures } => self.on_clean_done(freed, failures),
            WorkerMsg::DockerReady(ok) => {
                if ok {
                    self.start_scan()
                } else {
                    Effect::Nothing
                }
            },
        }
    }
}

// ---------------------------------------------------------------------------
// Keys
// ---------------------------------------------------------------------------

pub open spec fn is_char(k: Key, c: char) -> bool {
    k.code == KeyCode::Char(c)
}

pub open spec fn closed(a: App) -> App {
    App { modal: Modal::Closed, ..a }
}

/// Whether the cursor rests on the "start Docker" entry of the caches.
pub open spec fn on_docker_start(a: App) -> bool {
    let s = a.results.cat_items(a.current_category);
    a.selected_row < s.len() && comps(s[a.selected_row as int].path@) == comps("/docker-start"@)
}

/// A key while a modal is open. Control-Q quits from any modal.
pub open spec fn modal_key_post(a: App, key: Key, b: App, r: Reaction) -> bool {
    &&& r.quit == (key.code == KeyCode::Char('q') && key.ctrl)
    &&& match a.modal {
        Modal::Help => b == closed(a) && r.effect is Nothing,
        Modal::ConfirmClean { permanent, .. } => if is_char(key, 'y') || is_char(key, 'Y') {
            clean_post(App { pending_clean_permanent: permanent, modal: Modal::Closed, ..a }, b, r.effect)
        } else if is_char(key, 'n') || key.code == KeyCode::Esc {
            b == closed(a) && r.effect is Nothing
        } else {
            b == a && r.effect is Nothing
        },
        Modal::CleanDone { .. } => {
            &&& b == (if key.code == KeyCode::Enter || key.code == KeyCode::Esc || is_char(key, 'q') {
                closed(a)
            } else {
                a
            })
            &&& r.effect is Nothing
        },
        Modal::Fda => if is_char(key, 'o') || is_char(key, 'O') {
            b == a && r.effect is OpenFdaSettings
        } else if is_char(key, 'n') || key.code == KeyCode::Esc {
            b == closed(a) && r.effect is Nothing
        } else {
            b == a && r.effect is Nothing
        },
        Modal::DockerStart => if is_char(key, 'y') || is_char(key, 'Y') {
            b == closed(a) && r.effect is StartDocker
        } else if is_char(key, 'n') || key.code == KeyCode::Esc {
            b == closed(a) && r.effect is Nothing
        } else {
            b == a && r.effect is Nothing
        },
        _ => b == a && r.effect is Nothing,
    }
}

/// A key with no modal open.
pub open spec fn main_key_post(a: App, key: Key, b: App, r: Reaction) -> bool {
    if is_char(key, 'q') || key.code == KeyCode::Esc {
        r.quit && b == a && r.effect is Nothing
    } else if is_char(key, 'r') {
        !r.quit && start_post(a, b, r.effect)
    } else {
        &&& !r.quit
        &&& r.effect is Nothing
        &&& if is_char(key, '?') {
            b == (App { modal: Modal::Help, ..a })
        } else if is_char(key, 'd') {
            confirm_post(a, b, false)
        } else if is_char(key, 'D') {
            confirm_post(a, b, true)
        } else if is_char(key, ' ') {
            toggle_post(a, b)
        } else if is_char(key, 'a') {
            select_all_post(a, b, true)
        } else if is_char(key, 'A') {
            select_all_post(a, b, false)
        } else if is_char(key, 's') {
            safe_post(a, b)
        } else if is_char(key, 'n') {
            clear_post(a, b)
        } else if is_char(key, 'i') {
            invert_post(a, b)
        } else if key.code == KeyCode::Up || is_char(key, 'k') {
            move_post(a, b, -1)
        } else if key.code == KeyCode::Down || is_char(key, 'j') {
            move_post(a, b, 1)
        } else if key.code == KeyCode::Tab {
            next_post(a, b, 1)
        } else if key.code == KeyCode::BackTab {
            next_post(a, b, -1)
        } else if key.code == KeyCode::Enter {
            if on_docker_start(a) {
                b == (App { modal: Modal::DockerStart, ..a })
            } else {
                flip_post(a, b)
            }
        } else {
            b == a
        }
    }
}

/// What the machine needs of a key press with no modal open: sizes that fit
/// for the clean confirmation, and some category to move to for Tab.
pub open spec fn main_key_ok(a: App, key: Key) -> bool {
    &&& a.results.wf()
    &&& (is_char(key, 'd') || is_char(key, 'D')) ==> sum_bytes(chosen_items(a.results.every_item())) <= u64::MAX
    &&& (key.code == KeyCode::Tab || key.code == KeyCode::BackTab) ==> a.categories@.len() > 0
}

impl App {
    /// A key press while a modal is open.
    pub fn handle_modal_key(&mut self, key: Key) -> (r: Reaction)
        requires
            old(self).results.wf(),
        ensures
            modal_key_post(*old(self), key, *final(self), r),
    {
        let quit = key.code == KeyCode::Char('q') && key.ctrl;
        let code = key.code;
        let effect = match &self.modal {
            Modal::Help => {
                self.modal = Modal::Closed;
                Effect::Nothing
            },
            Modal::ConfirmClean { permanent, .. } => {
                if code == KeyCode::Char('y') || code == KeyCode::Char('Y') {
                    self.pending_clean_permanent = *permanent;
                    self.modal = Modal::Closed;
                    self.do_clean()
                } else if code == KeyCode::Char('n') || code == KeyCode::Esc {
                    self.modal = Modal::Closed;
                    Effect::Nothing
                } else {
                    Effect::Nothing
                }
            },
            Modal::CleanDone { .. } => {
                if code == KeyCode::Enter || code == KeyCode::Esc || code == KeyCode::Char('q') {
                    self.modal = Modal::Closed;
                }
                Effect::Nothing
            },
            Modal::Fda => {
                if code == KeyCode::Char('o') || code == KeyCode::Char('O') {
                    Effect::OpenFdaSettings
                } else if code == KeyCode::Char('n') || code == KeyCode::Esc {
                    self.modal = Modal::Closed;
                    Effect::Nothing
                } else {
                    Effect::Nothing
                }
            },
            Modal::DockerStart => {
                if code == KeyCode::Char('y') || code == KeyCode::Char('Y') {
                    self.modal = Modal::Closed;
                    Effect::StartDocker
                } else if code == KeyCode::Char('n') || code == KeyCode::Esc {
                    self.modal = Modal::Closed;
                    Effect::Nothing
                } else {
                    Effect::Nothing
                }
            },
            Modal::CleanProgress { .. } => Effect::Nothing,
            Modal::Closed => Effect::Nothing,
        };
        Reaction { quit, effect }
    }

    /// A key press with no modal open.
    pub fn handle_main_key(&mut self, key: Key) -> (r: Reaction)
        requires
            main_key_ok(*old(self), key),
        ensures
            main_key_post(*old(self), key, *final(self), r),
    {
        let code = key.code;
        let stay = Reaction { quit: false, effect: Effect::Nothing };
        if code == KeyCode::Char('q') || code == KeyCode::Esc {
            return Reaction { quit: true, effect: Effect::Nothing };
        }
        if code == KeyCode::Char('r') {
            let e = self.start_scan();
            return Reaction { quit: false, effect: e };
        }
        if code == KeyCode::Char('?') {
            self.modal = Modal::Help;
        } else if code == KeyCode::Char('d') {
            self.open_clean_confirm(false);
        } else if code == KeyCode::Char('D') {
            self.open_clean_confirm(true);
        } else if code == KeyCode::Char(' ') {
            self.toggle_current();
        } else if code == KeyCode::Char('a') {
            self.select_all_category(true);
        } else if code == KeyCode::Char('A') {
            self.select_all_category(false);
        } else if code == KeyCode::Char('s') {
            self.select_all_safe();
        } else if code == KeyCode::Char('n') {
            self.clear_selection();
        } else if code == KeyCode::Char('i') {
            self.invert_category();
        } else if code == KeyCode::Up || code == KeyCode::Char('k') {
            self.move_row(-1);
        } else if code == KeyCode::Down || code == KeyCode::Char('j') {
            self.move_row(1);
        } else if code == KeyCode::Tab {
            self.next_category(1);
        } else if code == KeyCode::BackTab {
            self.next_category(-1);
        } else if code == KeyCode::Enter {
            let docker = {
                let items = self.results.items_for(self.current_category);
                self.selected_row < items.len() && same_path(items[self.selected_row].path.as_str(), "/docker-start")
            };
            if docker {
                self.modal = Modal::DockerStart;
            } else {
                self.flip_keeper();
            }
        }
        stay
    }

    /// A key press: to the open modal if there is one, else to the main view.
    pub fn handle_key(&mut self, key: Key) -> (r: Reaction)
        requires
            old(self).results.wf(),
            old(self).modal is Closed ==> main_key_ok(*old(self), key),
        ensures
            if old(self).modal is Closed {
                main_key_post(*old(self), key, *final(self), r)
            } else {
                modal_key_post(*old(self), key, *final(self), r)
            },
    {
        if let Modal::Closed = self.modal {
            self.handle_main_key(key)
        } else {
            self.handle_modal_key(key)
        }
    }
}

/// For negative `x`, the Euclidean remainder by `m` from the remainder of `-x`.
proof fn lemma_negative_mod(x: int, m: int, k: int)
    requires
        m > 0,
        x < 0,
        k == (-x) % m,
    ensures
        (if k == 0 {
            0
        } else {
            m - k
        }) == x % m,
{
    let y = -x;
    let q = y / m;
    vstd::arithmetic::div_mod::lemma_fundamental_div_mod(y, m);
    assert(y == m * q + k);
    if k == 0 {
        assert(x == (-q) * m + 0) by (nonlinear_arith)
            requires
                y == m * q + k,
                k == 0,
                x == -y,
        ;
        vstd::arithmetic::div_mod::lemma_fundamental_div_mod_converse(x, m, -q, 0);
    } else {
        assert(0 < k < m);
        assert(x == (-q - 1) * m + (m - k)) by (nonlinear_arith)
            requires
                y == m * q + k,
                x == -y,
        ;
        vstd::arithmetic::div_mod::lemma_fundamental_div_mod_converse(x, m, -q - 1, m - k);
    }
}

} // verus!
