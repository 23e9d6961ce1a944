//! Properties that span operations: what selection changes keep, what a move
//! of the cursor keeps, what cleaning leaves behind.
use vstd::prelude::*;
use crate::app::{
    App, Effect, Key, Reaction, all_action, all_in_trash, is_char, main_key_post, modal_key_post,
    worker_post, all_set, cleared, flip_post, flipped, inverted, kept, keeper_moved, move_post, on_duplicate_set,
    remove_cleaned_post, safe_only, scroll_after, clamp_row, toggled_at, with_selected,
};
use crate::model::{
    Category, RankKey, SafetyTier, ScanItem, ScanResults, chosen, chosen_items, ingested, is_rank_order, preselect,
    priority_of, ranks_before, sum_bytes,
};
use crate::clean::{CleanOptions, CleanStep, permanent_delete, plan_spec, run_failures, run_freed, sat_add};
use crate::config::{Config, DeleteMode, Matchers};
use crate::scan::dev_artifacts::{DirVerdict, dir_verdict_spec};
use crate::scan::{WalkEntry, walk_entry_spec};
use crate::ui::detail::rows_spec;
use crate::ui::footer::outer_height_spec;
use crate::event::WorkerMsg;
use crate::fs_util::trash_dir_spec;
use crate::paths::path_starts_with;
use crate::model::ItemAction;
use crate::scan::duplicates::{FileEntry, born_before, group_ok, is_birth_order, lists};
use crate::scan::logs::{log_file_action_spec, log_tier_spec};
use crate::scan::large::archive_name;
use crate::scan::caches::app_cache_tier_spec;
use crate::privilege::fda_from;
use crate::text::{contains_seq, ends_with, ends_with_folded, fold_ascii};
use crate::scan::caches::{cache_note_spec, cache_tier_spec, docker_kind};
use crate::model::{DockerPrune, prune_args, regen_tenths, stale_tenths};
use crate::scan::logs::log_dir_note_spec;
use crate::scan::large::{large_note_spec, stale_archive};
use crate::config::LargeConfig;
use crate::clean::{credited, evict_command_spec};
use crate::scan::icloud::{EntryKind, EntryVerdict, entry_verdict_spec};
use crate::scan::dev_artifacts::skip_dir_spec;
use crate::paths::{file_name_of, relative_to};
use crate::model::{cat_from_slug, cat_slug};
use crate::scan::{generic_suffix, label_spec, limits_spec};
use crate::scan::trash_cat::trash_name_spec;
use crate::app::{KeyCode, position_of};
use crate::ui::modal::Modal;
use crate::fs_util::{human_size_spec, pow1024, size_unit, unit_name};
use crate::text::{dec, trim};
use crate::cli::named_categories;
use crate::ui::detail::age_label_spec;
use crate::ui::theme::truecolor_terminal;
use crate::scan::dev_artifacts::review_note_spec;
use crate::clean::evict_failure_spec;
use crate::config::strs;
use crate::text::contains_folded;

verus! {

/// The cursor is on an item and inside the visible window of the list.
pub open spec fn cursor_on_screen(a: App) -> bool {
    let len = a.results.cat_items(a.current_category).len();
    let visible = if a.detail_visible_rows < 1 {
        1
    } else {
        a.detail_visible_rows as int
    };
    a.selected_row < len && a.scroll <= a.selected_row && a.selected_row < a.scroll + visible
}

/// Moving the cursor one row up or down keeps it on an item and on screen.
pub proof fn law_step_keeps_cursor_on_screen(a: App, b: App, delta: int)
    requires
        delta == 1 || delta == -1,
        cursor_on_screen(a),
        move_post(a, b, delta),
    ensures
        cursor_on_screen(b),
{
    let len = a.results.cat_items(a.current_category).len() as int;
    let row = clamp_row(a.selected_row + delta, len);
    let sc = scroll_after(a.scroll as int, row, delta, len, a.detail_visible_rows as int);
    assert(len > 0);
    let v = a.results.items@[crate::model::cat_index(a.current_category)];
    assert(v.len() == v@.len());
    assert(0 <= row < len);
    let visible = if a.detail_visible_rows < 1 {
        1
    } else {
        a.detail_visible_rows as int
    };
    assert(0 <= sc <= row < sc + visible);
    assert(b.selected_row == row && b.scroll == sc);
}

/// Inverting the selection twice gives the original list back.
pub proof fn law_invert_twice_is_identity(s: Seq<ScanItem>)
    ensures
        inverted(inverted(s)) == s,
{
    assert(inverted(inverted(s)) =~= s);
}

/// No selection change touches a keeper: selecting, deselecting, inverting
/// and toggling leave it as it was, and selecting everything Safe leaves it
/// unselected.
pub proof fn law_keepers_are_never_selected(s: Seq<ScanItem>, b: bool, row: int, k: int)
    requires
        0 <= k < s.len(),
        s[k].is_keeper,
    ensures
        all_set(s, b)[k] == s[k],
        inverted(s)[k] == s[k],
        toggled_at(s, row)[k] == s[k],
        !safe_only(s)[k].selected,
{
}

/// After selecting everything Safe, the selection is exactly the Safe items
/// that are not keepers.
pub proof fn law_select_safe_selects_exactly_safe(s: Seq<ScanItem>, k: int)
    requires
        0 <= k < s.len(),
    ensures
        chosen(safe_only(s)[k]) <==> (s[k].tier == SafetyTier::Safe && !s[k].is_keeper),
{
}

/// A cleared list has nothing selected and nothing to clean.
pub proof fn law_cleared_selects_nothing(s: Seq<ScanItem>)
    ensures
        chosen_items(cleared(s)).len() == 0,
        sum_bytes(chosen_items(cleared(s))) == 0,
    decreases s.len(),
{
    if s.len() > 0 {
        law_cleared_selects_nothing(s.drop_last());
        assert(cleared(s).drop_last() =~= cleared(s.drop_last()));
    }
}

pub proof fn lemma_kept_counts(s: Seq<ScanItem>)
    ensures
        kept(s).len() + chosen_items(s).len() == s.len(),
        forall|k: int| 0 <= k < kept(s).len() ==> !chosen(#[trigger] kept(s)[k]),
    decreases s.len(),
{
    if s.len() > 0 {
        lemma_kept_counts(s.drop_last());
    }
}

/// After a clean finishes, no category has anything selected, and each lost
/// exactly the items that were selected for cleaning; keepers and unselected
/// items stay.
pub proof fn law_remove_cleaned_drops_exactly_the_selection(a: App, b: App, c: Category)
    requires
        remove_cleaned_post(a, b),
    ensures
        chosen_items(b.results.cat_items(c)).len() == 0,
        b.results.cat_items(c).len() + chosen_items(a.results.cat_items(c)).len() == a.results.cat_items(c).len(),
        forall|k: int| 0 <= k < b.results.cat_items(c).len() ==> !chosen(#[trigger] kept(a.results.cat_items(c))[k]),
{
    let s = a.results.cat_items(c);
    assert(b.results.cat_items(c) == cleared(kept(s)));
    law_cleared_selects_nothing(kept(s));
    lemma_kept_counts(s);
}

/// Moving the keeper of a duplicate set leaves exactly one keeper in the
/// set, the item under the cursor, which is Risky and unselected; every other
/// member is Safe and selected.
pub proof fn law_flip_keeper_leaves_one_keeper(a: App, b: App, k: int)
    requires
        a.results.wf(),
        on_duplicate_set(a),
        flip_post(a, b),
        0 <= k < a.results.cat_items(Category::Duplicates).len(),
        b.results.cat_items(Category::Duplicates)[k].group_id == a.results.cat_items(
            Category::Duplicates,
        )[a.selected_row as int].group_id,
    ensures
        b.results.cat_items(Category::Duplicates)[k].is_keeper <==> k == a.selected_row,
        b.results.cat_items(Category::Duplicates)[k].selected <==> k != a.selected_row,
        b.results.cat_items(Category::Duplicates)[k].tier == (if k == a.selected_row {
            SafetyTier::Risky
        } else {
            SafetyTier::Safe
        }),
{
}

/// In every duplicate set exactly one file is kept, and it is an oldest one:
/// no member of the set was created before it.
pub proof fn law_each_duplicate_set_keeps_its_oldest(files: Seq<FileEntry>, g: Seq<usize>, gid: u64, chunk: Seq<ScanItem>, k: int)
    requires
        group_ok(files, g, gid, chunk),
        0 <= k < chunk.len(),
        forall|j: int| 0 <= j < g.len() ==> g[j] < files.len(),
    ensures
        chunk[k].is_keeper <==> k == 0,
        chunk[k].selected <==> k != 0,
        exists|m: int| 0 <= m < g.len() && chunk[0].path@ == files[g[m] as int].path@ && forall|j: int|
            0 <= j < g.len() ==> files[g[m] as int].birth <= #[trigger] files[g[j] as int].birth,
{
    let p = choose|p: Seq<int>|
        is_birth_order(files, g, p) && chunk.len() == g.len() && forall|q: int|
            0 <= q < chunk.len() ==> crate::scan::duplicates::dup_item_is(#[trigger] chunk[q], files[g[p[q]] as int], q == 0, gid);
    assert(crate::scan::duplicates::dup_item_is(chunk[k], files[g[p[k]] as int], k == 0, gid));
    assert(crate::scan::duplicates::dup_item_is(chunk[0], files[g[p[0]] as int], true, gid));
    let m = p[0];
    assert forall|j: int| 0 <= j < g.len() implies files[g[m] as int].birth <= #[trigger] files[g[j] as int].birth by {
        assert(lists(p, j));
        let q = choose|q: int| 0 <= q < p.len() && #[trigger] p[q] == j;
        if q > 0 {
            assert(born_before(files, g, p[0], p[q]));
        }
    }
}

/// After a category is ingested, its items come in non-increasing priority,
/// every Safe item outside a duplicate set is selected, and every other
/// item's selection is as the scanner left it.
pub proof fn law_ingest_orders_by_priority_and_selects_safe(a: ScanResults, cat: Category, items: Seq<ScanItem>, b: ScanResults, k1: int, k2: int)
    requires
        ingested(a, cat, items, b),
        0 <= k1 < k2 < b.cat_items(cat).len(),
    ensures
        priority_of(b.cat_items(cat)[k1]) >= priority_of(b.cat_items(cat)[k2]),
        b.cat_items(cat)[k1].tier == SafetyTier::Safe && !b.cat_items(cat)[k1].is_keeper ==> b.cat_items(cat)[k1].selected,
        exists|j: int| 0 <= j < items.len() && b.cat_items(cat)[k1] == preselect(#[trigger] items[j]),
{
    let p = choose|p: Seq<int>| #[trigger] is_rank_order(RankKey::Priority, items, p) && b.cat_items(cat).len() == p.len()
        && forall|k: int| 0 <= k < p.len() ==> #[trigger] b.cat_items(cat)[k] == preselect(items[p[k]]);
    assert(ranks_before(RankKey::Priority, items, p[k1], p[k2]));
    assert(b.cat_items(cat)[k1] == preselect(items[p[k1]]));
    assert(b.cat_items(cat)[k2] == preselect(items[p[k2]]));
    assert(priority_of(preselect(items[p[k1]])) == priority_of(items[p[k1]]));
    assert(priority_of(preselect(items[p[k2]])) == priority_of(items[p[k2]]));
}

/// Nothing is cleaned without confirmation: a key press hands items to the
/// cleaner only while the clean confirmation is open and the key is `y` or
/// `Y`, and what it hands over is exactly the current selection, never empty.
pub proof fn law_clean_needs_confirmation(a: App, key: Key, b: App, r: Reaction)
    requires
        if a.modal is Closed {
            main_key_post(a, key, b, r)
        } else {
            modal_key_post(a, key, b, r)
        },
        r.effect is Clean,
    ensures
        a.modal is ConfirmClean,
        is_char(key, 'y') || is_char(key, 'Y'),
        r.effect matches Effect::Clean(items, _) && items@ == chosen_items(a.results.every_item()) && items@.len() > 0,
{
}

/// No message from a scan or clean worker ever starts a clean.
pub proof fn law_workers_never_clean(a: App, msg: WorkerMsg, b: App, e: Effect)
    requires
        worker_post(a, msg, b, e),
    ensures
        !(e is Clean),
{
}

/// Permanent deletion is explicit. With the Trash as the delete mode, `d`
/// then `y` cleans permanently only when everything selected empties the
/// Trash or already is in it; `D` then `y` always cleans permanently.
pub proof fn law_permanent_only_when_asked(a: App, first: Key, b: App, r1: Reaction, second: Key, c: App, r2: Reaction)
    requires
        a.modal is Closed,
        a.config.delete_mode == DeleteMode::Trash,
        main_key_post(a, first, b, r1),
        modal_key_post(b, second, c, r2),
        is_char(first, 'd') || is_char(first, 'D'),
        r2.effect is Clean,
    ensures
        r2.effect matches Effect::Clean(items, opts) && {
            &&& is_char(first, 'D') ==> opts.permanent
            &&& is_char(first, 'd') && opts.permanent ==> exists|home: Seq<char>|
                all_action(items@, ItemAction::EmptyTrash) || all_in_trash(items@, home)
            &&& opts.mode == DeleteMode::Trash
        },
{
    let sel = chosen_items(a.results.every_item());
    assert(b.modal is ConfirmClean);
    assert(sel.len() > 0);
    assert(b.results == a.results);
}

/// The Trash is the default: an item to delete whose path exists, outside
/// the Trash, is moved to the Trash unless the clean is permanent or the
/// delete mode is permanent.
pub proof fn law_default_clean_moves_to_trash(item: ScanItem, opts: CleanOptions, home: Seq<char>)
    requires
        item.action == ItemAction::Delete,
        item.category != Category::Trash,
        !path_starts_with(item.path@, trash_dir_spec(home)),
        !opts.permanent,
        opts.mode == DeleteMode::Trash,
    ensures
        plan_spec(item, true, permanent_delete(item, opts, home)) == CleanStep::MoveToTrash(item.path),
        plan_spec(item, false, permanent_delete(item, opts, home)) == CleanStep::Skip,
{
}

/// iCloud copies are evicted, never deleted: an item whose action is to
/// evict is planned as the eviction of its own path, whatever the options
/// and whether or not the path is still there.
pub proof fn law_evicted_items_are_never_deleted(item: ScanItem, exists: bool, permanent: bool)
    requires
        item.action == ItemAction::Evict,
    ensures
        plan_spec(item, exists, permanent) == CleanStep::Evict(item.path),
{
}

/// Protected folders are never listed as developer artifacts: the walk of a
/// project root prunes them without looking at their name.
pub proof fn law_protected_dirs_are_pruned(cfg: Config, m: Matchers, path: Seq<char>, name: Seq<char>)
    requires
        m.protects(path),
    ensures
        dir_verdict_spec(cfg, m, path, name) == DirVerdict::Prune,
{
}

/// Over a clean run (see [`crate::clean::clean_run`]) the bytes reported
/// freed never go down from one item to the next, and there is at most one
/// failure per item done.
pub proof fn law_clean_run_progress_never_goes_back(
    items: Seq<ScanItem>,
    outcomes: Seq<Result<u64, String>>,
    dry_run: bool,
    k1: int,
    k2: int,
)
    requires
        0 <= k1 <= k2,
    ensures
        run_freed(items, outcomes, dry_run, k1) <= run_freed(items, outcomes, dry_run, k2),
        run_failures(items, outcomes, dry_run, k2).len() <= k2,
    decreases k2,
{
    if k2 > 0 {
        law_clean_run_progress_never_goes_back(items, outcomes, dry_run, if k1 < k2 { k1 } else { k2 - 1 }, k2 - 1);
    }
}

/// Saturating sum of the sizes of the first `k` items.
pub open spec fn sat_total(items: Seq<ScanItem>, k: int) -> u64
    decreases k,
{
    if k <= 0 {
        0
    } else {
        sat_add(sat_total(items, k - 1), items[k - 1].real_bytes)
    }
}

/// A dry run carries nothing out: what it reports does not depend on any
/// outcome. It counts the saturating sum of the items' sizes as freed and
/// lists no failure.
pub proof fn law_dry_run_reports_the_sum(items: Seq<ScanItem>, outcomes: Seq<Result<u64, String>>, k: int)
    requires
        0 <= k,
    ensures
        run_freed(items, outcomes, true, k) == sat_total(items, k),
        run_failures(items, outcomes, true, k).len() == 0,
    decreases k,
{
    if k > 0 {
        law_dry_run_reports_the_sum(items, outcomes, k - 1);
    }
}

/// Protected paths are never visited: whatever kind of entry a protected
/// path is, the walk skips it, so no scanner sees it and nothing below it is
/// entered.
pub proof fn law_protected_paths_are_never_visited(m: Matchers, path: Seq<char>, is_dir: bool, is_file: bool)
    requires
        m.protects(path),
    ensures
        walk_entry_spec(m, path, is_dir, is_file) == WalkEntry::Skip,
{
}

/// A taller terminal never shows fewer rows: once the body has at least its
/// minimum height, the detail table shows the terminal's height less the
/// header, footer, borders, summary strip and table header (see
/// [`crate::ui::detail::visible_data_rows_for_terminal`]), so every extra row
/// of terminal is one more row of table.
pub proof fn law_taller_terminal_shows_no_fewer_rows(w: u16, h1: u16, h2: u16)
    requires
        13 + outer_height_spec(w) <= h1 <= h2,
    ensures
        rows_spec(h1 - 3 - outer_height_spec(w)) <= rows_spec(h2 - 3 - outer_height_spec(w)),
        rows_spec(h2 - 3 - outer_height_spec(w)) - rows_spec(h1 - 3 - outer_height_spec(w)) == h2 - h1,
{
}

/// Log files untouched for at least `age_days` are Safe and deleted, whether
/// or not truncation is on; newer ones are Moderate, and truncated in place
/// exactly when truncation is on.
pub proof fn law_old_logs_are_deleted_recent_ones_truncated(days: u32, age_days: u32, truncate_active: bool)
    ensures
        days >= age_days ==> log_file_action_spec(days, age_days, truncate_active) == ItemAction::Delete
            && log_tier_spec(days, age_days) == SafetyTier::Safe,
        days < age_days ==> log_tier_spec(days, age_days) == SafetyTier::Moderate,
        days < age_days && truncate_active ==> log_file_action_spec(days, age_days, truncate_active)
            == ItemAction::Truncate,
        !truncate_active ==> log_file_action_spec(days, age_days, truncate_active) == ItemAction::Delete,
{
}

/// `s` with every capital ASCII letter written in lower case (and the Kelvin
/// sign as `k`, as `to_lowercase` does).
pub open spec fn lowered(s: Seq<char>) -> Seq<char> {
    s.map_values(|c: char| fold_ascii(c))
}

proof fn lemma_ends_with_folded_is_lowered_suffix(n: Seq<char>, p: Seq<char>)
    ensures
        ends_with_folded(n, p) <==> ends_with(lowered(n), p),
{
    let l = lowered(n);
    if ends_with_folded(n, p) {
        assert(l.skip(l.len() - p.len()) =~= p) by {
            assert forall|k: int| 0 <= k < p.len() implies #[trigger] l.skip(l.len() - p.len())[k] == p[k] by {
                assert(crate::text::folds_to(n[n.len() - p.len() + k], p[k]));
            }
        }
    }
    if ends_with(l, p) {
        assert forall|k: int| 0 <= k < p.len() implies #[trigger] crate::text::folds_to(n[n.len() - p.len() + k], p[k]) by {
            assert(l.skip(l.len() - p.len())[k] == p[k]);
        }
    }
}

/// A file name is an installer or archive exactly when, lower-cased, it ends
/// with one of `.dmg`, `.pkg`, `.zip`, `.tar`, `.tar.gz`, `.tgz`, `.iso` or
/// `.run`.
pub proof fn law_archive_names(n: Seq<char>)
    ensures
        archive_name(n) <==> {
            ||| ends_with(lowered(n), ".dmg"@)
            ||| ends_with(lowered(n), ".pkg"@)
            ||| ends_with(lowered(n), ".zip"@)
            ||| ends_with(lowered(n), ".tar"@)
            ||| ends_with(lowered(n), ".tar.gz"@)
            ||| ends_with(lowered(n), ".tgz"@)
            ||| ends_with(lowered(n), ".iso"@)
            ||| ends_with(lowered(n), ".run"@)
        },
{
    lemma_ends_with_folded_is_lowered_suffix(n, ".dmg"@);
    lemma_ends_with_folded_is_lowered_suffix(n, ".pkg"@);
    lemma_ends_with_folded_is_lowered_suffix(n, ".zip"@);
    lemma_ends_with_folded_is_lowered_suffix(n, ".tar"@);
    lemma_ends_with_folded_is_lowered_suffix(n, ".tar.gz"@);
    lemma_ends_with_folded_is_lowered_suffix(n, ".tgz"@);
    lemma_ends_with_folded_is_lowered_suffix(n, ".iso"@);
    lemma_ends_with_folded_is_lowered_suffix(n, ".run"@);
}

/// Each kind of item is cleaned by its own kind of step: a Docker prune runs
/// the prune of the item's own kind, an active log is truncated at its own
/// path, the Trash entry empties the Trash, an iCloud copy is evicted at its
/// own path, and a file to delete is skipped when gone, removed for good when
/// permanent, and moved to the Trash otherwise.
pub proof fn law_each_action_has_its_own_step(item: ScanItem, exists: bool, permanent: bool)
    ensures
        item.action matches ItemAction::DockerPrune(k) ==> plan_spec(item, exists, permanent) == CleanStep::DockerPrune(k),
        item.action == ItemAction::Truncate ==> plan_spec(item, exists, permanent) == CleanStep::Truncate(item.path),
        item.action == ItemAction::EmptyTrash ==> plan_spec(item, exists, permanent) == CleanStep::EmptyTrash,
        item.action == ItemAction::Evict ==> plan_spec(item, exists, permanent) == CleanStep::Evict(item.path),
        item.action == ItemAction::Delete && !exists ==> plan_spec(item, exists, permanent) == CleanStep::Skip,
        item.action == ItemAction::Delete && exists && permanent ==> plan_spec(item, exists, permanent)
            == CleanStep::RemovePermanently(item.path),
        item.action == ItemAction::Delete && exists && !permanent ==> plan_spec(item, exists, permanent)
            == CleanStep::MoveToTrash(item.path),
{
}

/// An app cache is Moderate exactly when its name begins with the ten
/// characters `com.apple.`; every other app cache is Safe.
pub proof fn law_only_apple_app_caches_are_moderate(n: Seq<char>)
    ensures
        app_cache_tier_spec(n) == (if n.len() >= 10 && n.take(10) == "com.apple."@ {
            SafetyTier::Moderate
        } else {
            SafetyTier::Safe
        }),
{
    reveal_strlit("com.apple.");
}

/// The first conclusive probe decides Full Disk Access: if probe `i`
/// answered `b` and none before it was conclusive, the answer is `b`; in
/// particular a permission-denied first answer means no access.
pub proof fn law_first_conclusive_probe_decides(p: Seq<Option<bool>>, i: int, b: bool)
    requires
        0 <= i < p.len(),
        p[i] == Some(b),
        forall|j: int| 0 <= j < i ==> p[j] is None,
    ensures
        fda_from(p) == b,
    decreases i,
{
    if i > 0 {
        let q = p.drop_first();
        assert forall|j: int| 0 <= j < i - 1 implies q[j] is None by {
            assert(q[j] == p[j + 1]);
        }
        assert(q[i - 1] == p[i]);
        law_first_conclusive_probe_decides(q, i - 1, b);
    }
}

/// With no conclusive probe at all, access is assumed.
pub proof fn law_no_conclusive_probe_assumes_access(p: Seq<Option<bool>>)
    requires
        forall|j: int| 0 <= j < p.len() ==> p[j] is None,
    ensures
        fda_from(p),
    decreases p.len(),
{
    if p.len() > 0 {
        let q = p.drop_first();
        assert forall|j: int| 0 <= j < q.len() implies q[j] is None by {
            assert(q[j] == p[j + 1]);
        }
        law_no_conclusive_probe_assumes_access(q);
    }
}

/// A cache directory whose name mentions `ShipIt` is an updater leftover and
/// Safe; otherwise one that mentions `DerivedData`, `DeviceSupport` or `cargo`
/// is Moderate, being slow to rebuild; every other cache is Safe and
/// regenerable. No cache directory is ever Risky.
pub proof fn law_cache_tiers_and_notes(n: Seq<char>)
    ensures
        contains_seq(n, "ShipIt"@) ==> cache_tier_spec(n) == SafetyTier::Safe
            && cache_note_spec(n) == "updater leftover \u{2014} safe to remove"@,
        !contains_seq(n, "ShipIt"@) ==> cache_note_spec(n) == "regenerable cache"@,
        !contains_seq(n, "ShipIt"@) && (contains_seq(n, "DerivedData"@) || contains_seq(n, "DeviceSupport"@)
            || contains_seq(n, "cargo"@)) ==> cache_tier_spec(n) == SafetyTier::Moderate,
        !contains_seq(n, "ShipIt"@) && !contains_seq(n, "DerivedData"@) && !contains_seq(n, "DeviceSupport"@)
            && !contains_seq(n, "cargo"@) ==> cache_tier_spec(n) == SafetyTier::Safe,
        cache_tier_spec(n) != SafetyTier::Risky,
{
}

/// Each Docker data kind that `docker system df` reports is offered under its
/// own label with its own prune; any other kind is not offered.
pub proof fn law_docker_kinds(kind: Seq<char>)
    ensures
        kind == "Build Cache"@ ==> docker_kind(kind) == Some(("Docker build cache"@, DockerPrune::BuildCache)),
        kind == "Images"@ ==> docker_kind(kind) == Some(("Docker unused images"@, DockerPrune::Images)),
        kind == "Containers"@ ==> docker_kind(kind) == Some(("Docker stopped containers"@, DockerPrune::Containers)),
        kind == "Local Volumes"@ ==> docker_kind(kind) == Some(("Docker dangling volumes"@, DockerPrune::Volumes)),
        kind != "Build Cache"@ && kind != "Images"@ && kind != "Containers"@ && kind != "Local Volumes"@
            ==> docker_kind(kind) is None,
{
    reveal_strlit("Build Cache");
    reveal_strlit("Images");
    reveal_strlit("Containers");
    reveal_strlit("Local Volumes");
    assert("Build Cache"@.len() == 11 && "Images"@.len() == 6 && "Containers"@.len() == 10);
    if kind == "Images"@ {
        assert(kind != "Build Cache"@);
    }
    if kind == "Containers"@ {
        assert(kind != "Build Cache"@ && kind != "Images"@);
    }
}

/// Each prune runs its own `docker` command: the build cache `builder prune
/// -f`, unused images `image prune -af`, stopped containers `container prune
/// -f` and dangling volumes `volume prune -f`; no two prunes share a command.
pub proof fn law_prune_commands(k: DockerPrune, j: DockerPrune)
    ensures
        k == DockerPrune::BuildCache ==> prune_args(k) == seq!["builder"@, "prune"@, "-f"@],
        k == DockerPrune::Images ==> prune_args(k) == seq!["image"@, "prune"@, "-af"@],
        k == DockerPrune::Containers ==> prune_args(k) == seq!["container"@, "prune"@, "-f"@],
        k == DockerPrune::Volumes ==> prune_args(k) == seq!["volume"@, "prune"@, "-f"@],
        k != j ==> prune_args(k) != prune_args(j),
{
    reveal_strlit("builder");
    reveal_strlit("image");
    reveal_strlit("container");
    reveal_strlit("volume");
    reveal_strlit("-f");
    reveal_strlit("-af");
    if k != j {
        assert("builder"@.len() == 7 && "image"@.len() == 5 && "container"@.len() == 9 && "volume"@.len() == 6);
        assert(prune_args(k)[0].len() != prune_args(j)[0].len());
    }
}

/// The ranking factors: staleness counts 0.8 for 0 to 6 days, 1.0 for 7 to
/// 29, 1.2 for 30 to 89 and 1.5 from 90 days on, never less for an older
/// item; Safe counts 1.0, Moderate 0.7 and Risky 0.3.
pub proof fn law_priority_factors(d: nat, e: nat)
    ensures
        d <= 6 ==> stale_tenths(d) == 8,
        7 <= d <= 29 ==> stale_tenths(d) == 10,
        30 <= d <= 89 ==> stale_tenths(d) == 12,
        90 <= d ==> stale_tenths(d) == 15,
        d <= e ==> stale_tenths(d) <= stale_tenths(e),
        regen_tenths(SafetyTier::Safe) == 10,
        regen_tenths(SafetyTier::Moderate) == 7,
        regen_tenths(SafetyTier::Risky) == 3,
{
}

/// Of two items alike in size and tier, the one left alone longer ranks no
/// lower; of two alike in size and age, the safer ranks no lower.
pub proof fn law_staler_and_safer_rank_no_lower(a: ScanItem, b: ScanItem)
    ensures
        a.real_bytes == b.real_bytes && a.tier == b.tier && a.last_access_days <= b.last_access_days
            ==> priority_of(a) <= priority_of(b),
        a.real_bytes == b.real_bytes && a.last_access_days == b.last_access_days
            && regen_tenths(a.tier) <= regen_tenths(b.tier) ==> priority_of(a) <= priority_of(b),
{
    let sa = stale_tenths(a.last_access_days as nat);
    let sb = stale_tenths(b.last_access_days as nat);
    let ra = regen_tenths(a.tier);
    let rb = regen_tenths(b.tier);
    let x = a.real_bytes as nat;
    let y = b.real_bytes as nat;
    law_priority_factors(a.last_access_days as nat, b.last_access_days as nat);
    if a.real_bytes == b.real_bytes && a.tier == b.tier && a.last_access_days <= b.last_access_days {
        assert(x * ra * sa <= x * ra * sb) by (nonlinear_arith)
            requires
                sa <= sb,
        ;
    }
    if a.real_bytes == b.real_bytes && a.last_access_days == b.last_access_days && ra <= rb {
        assert(x * ra * sa <= x * rb * sa) by (nonlinear_arith)
            requires
                ra <= rb,
        ;
    }
}

/// A log directory whose newest entry is at least `age_days` old is noted as
/// old logs; a newer one asks for review.
pub proof fn law_log_dir_notes(days: u32, age_days: u32)
    ensures
        days >= age_days ==> log_dir_note_spec(days, age_days) == "old logs"@,
        days < age_days ==> log_dir_note_spec(days, age_days) == "recent logs \u{2014} review before deleting"@,
{
}

/// An installer or archive is stale exactly when it is at least the stale
/// size and unused for at least the stale days; a stale one is noted as a
/// stale installer or archive, any other large file as a user file.
pub proof fn law_stale_archives(path: Seq<char>, bytes: u64, days: u32, cfg: LargeConfig)
    ensures
        stale_archive(path, bytes, days, cfg) <==> (file_name_of(path) matches Some(n) && archive_name(n))
            && bytes >= cfg.stale_archive_min_bytes && days >= cfg.stale_archive_days,
        large_note_spec(true) == "stale installer/archive \u{2014} review before deleting"@,
        large_note_spec(false) == "user file \u{2014} review before deleting"@,
{
}

/// `brctl evict` is run on the document's own path; as root it runs as the
/// invoking user through `sudo -u`, and as root with no such user it is
/// refused.
pub proof fn law_evict_runs_as_the_owner(path: Seq<char>, user: Option<Seq<char>>, u: Seq<char>)
    ensures
        evict_command_spec(path, false, user) == Ok::<Seq<Seq<char>>, Seq<char>>(seq!["brctl"@, "evict"@, path]),
        evict_command_spec(path, true, Some(u)) == Ok::<Seq<Seq<char>>, Seq<char>>(
            seq!["sudo"@, "-u"@, u, "brctl"@, "evict"@, path],
        ),
        evict_command_spec(path, true, None) is Err,
{
}

/// A skipped item frees nothing; any other step that succeeded frees the
/// item's real size.
pub proof fn law_cleaning_credits_real_size(item: ScanItem, step: CleanStep)
    ensures
        step == CleanStep::Skip ==> credited(item, step) == 0,
        step != CleanStep::Skip ==> credited(item, step) == item.real_bytes,
{
}

/// In iCloud Drive, hidden entries, `.icloud` placeholders, symbolic links
/// and special files are skipped; any other regular file is considered, and
/// any other folder is walked unless it is a build or dependency folder or a
/// bundle or project package.
pub proof fn law_icloud_entries(name: Seq<char>, kind: EntryKind)
    ensures
        name.len() > 0 && name[0] == '.' ==> entry_verdict_spec(name, kind) == EntryVerdict::Skip,
        ends_with(name, ".icloud"@) ==> entry_verdict_spec(name, kind) == EntryVerdict::Skip,
        kind == EntryKind::Symlink || kind == EntryKind::Other ==> entry_verdict_spec(name, kind) == EntryVerdict::Skip,
        !(name.len() > 0 && name[0] == '.') && !ends_with(name, ".icloud"@) && kind == EntryKind::File
            ==> entry_verdict_spec(name, kind) == EntryVerdict::Consider,
        !(name.len() > 0 && name[0] == '.') && !ends_with(name, ".icloud"@) && kind == EntryKind::Dir ==> (
        entry_verdict_spec(name, kind) == EntryVerdict::Skip <==> {
            ||| name == "node_modules"@
            ||| name == ".git"@
            ||| name == "__pycache__"@
            ||| name == "target"@
            ||| name == ".npm"@
            ||| name == "Pods"@
            ||| name == "DerivedData"@
            ||| name == "build"@
            ||| name == ".venv"@
            ||| name == "venv"@
            ||| name == ".tox"@
            ||| name == ".gradle"@
            ||| name == "out"@
            ||| ends_with(name, ".app"@)
            ||| ends_with(name, ".framework"@)
            ||| ends_with(name, ".bundle"@)
            ||| ends_with(name, ".plugin"@)
            ||| ends_with(name, ".xcodeproj"@)
            ||| ends_with(name, ".xcworkspace"@)
        }),
        !(name.len() > 0 && name[0] == '.') && !ends_with(name, ".icloud"@) && kind == EntryKind::Dir
            ==> entry_verdict_spec(name, kind) != EntryVerdict::Consider,
{
    let names = crate::scan::icloud::skip_dir_names();
    if names.contains(name) {
        let k = choose|k: int| 0 <= k < names.len() && names[k] == name;
        assert(0 <= k < 13);
    }
    assert(names[0] == "node_modules"@);
    assert(names[12] == "out"@);
    if name == "node_modules"@ || name == ".git"@ || name == "__pycache__"@ || name == "target"@ || name == ".npm"@
        || name == "Pods"@ || name == "DerivedData"@ || name == "build"@ || name == ".venv"@ || name == "venv"@
        || name == ".tox"@ || name == ".gradle"@ || name == "out"@ {
        assert(names.contains(name)) by {
            if name == "node_modules"@ { assert(names[0] == name); }
            else if name == ".git"@ { assert(names[1] == name); }
            else if name == "__pycache__"@ { assert(names[2] == name); }
            else if name == "target"@ { assert(names[3] == name); }
            else if name == ".npm"@ { assert(names[4] == name); }
            else if name == "Pods"@ { assert(names[5] == name); }
            else if name == "DerivedData"@ { assert(names[6] == name); }
            else if name == "build"@ { assert(names[7] == name); }
            else if name == ".venv"@ { assert(names[8] == name); }
            else if name == "venv"@ { assert(names[9] == name); }
            else if name == ".tox"@ { assert(names[10] == name); }
            else if name == ".gradle"@ { assert(names[11] == name); }
            else { assert(names[12] == name); }
        }
    }
}

/// In a project root, protected folders and every app, framework or other
/// bundle and photo library (in any letter case) are pruned, and nothing else
/// is.
pub proof fn law_bundles_and_protected_dirs_are_pruned(m: Matchers, p: Seq<char>)
    ensures
        skip_dir_spec(m, p) <==> m.protects(p) || (file_name_of(p) matches Some(n) && {
            ||| ends_with(lowered(n), ".app"@)
            ||| ends_with(lowered(n), ".framework"@)
            ||| ends_with(lowered(n), ".bundle"@)
            ||| ends_with(lowered(n), ".photoslibrary"@)
        }),
{
    if let Some(n) = file_name_of(p) {
        lemma_ends_with_folded_is_lowered_suffix(n, ".app"@);
        lemma_ends_with_folded_is_lowered_suffix(n, ".framework"@);
        lemma_ends_with_folded_is_lowered_suffix(n, ".bundle"@);
        lemma_ends_with_folded_is_lowered_suffix(n, ".photoslibrary"@);
    }
}

/// Every category is named on the command line by its own slug (`caches`,
/// `logs`, `dev`, `duplicates`, `icloud`, `large`, `trash`), each slug reads
/// back as its category, and a word that reads as a category is that
/// category's slug.
pub proof fn law_slugs_round_trip(c: Category, s: Seq<char>)
    ensures
        cat_from_slug(cat_slug(c)) == Some(c),
        cat_from_slug(s) matches Some(d) ==> cat_slug(d) == s,
        cat_slug(Category::Caches) == "caches"@,
        cat_slug(Category::Logs) == "logs"@,
        cat_slug(Category::DevArtifacts) == "dev"@,
        cat_slug(Category::Duplicates) == "duplicates"@,
        cat_slug(Category::ICloud) == "icloud"@,
        cat_slug(Category::LargeFiles) == "large"@,
        cat_slug(Category::Trash) == "trash"@,
{
    reveal_strlit("caches");
    reveal_strlit("logs");
    reveal_strlit("dev");
    reveal_strlit("duplicates");
    reveal_strlit("icloud");
    reveal_strlit("large");
    reveal_strlit("trash");
    assert("caches"@.len() == 6 && "logs"@.len() == 4 && "dev"@.len() == 3 && "duplicates"@.len() == 10);
    assert("icloud"@.len() == 6 && "large"@.len() == 5 && "trash"@.len() == 5);
    assert("caches"@[0] != "icloud"@[0]);
    assert("large"@[0] != "trash"@[0]);
}

/// The scan budget: one to four category workers, never more than there are
/// categories and at least two when there are two or more; one or two walker
/// threads per worker; one hashing thread on one or two processors and at
/// least two otherwise, taking every processor the workers leave but one.
pub proof fn law_scan_budget(count: usize, cpus: usize)
    ensures
        1 <= limits_spec(count as int, cpus as int).category_workers <= 4,
        count >= 1 ==> limits_spec(count as int, cpus as int).category_workers <= count,
        count >= 2 ==> limits_spec(count as int, cpus as int).category_workers >= 2,
        count >= 4 && cpus >= 16 ==> limits_spec(count as int, cpus as int).category_workers == 4,
        1 <= limits_spec(count as int, cpus as int).walk_threads <= 2,
        cpus <= 2 ==> limits_spec(count as int, cpus as int).hash_threads == 1,
        cpus > 2 ==> limits_spec(count as int, cpus as int).hash_threads >= 2,
        cpus > 2 && cpus - limits_spec(count as int, cpus as int).category_workers - 1 >= 2
            ==> limits_spec(count as int, cpus as int).hash_threads
            == cpus - limits_spec(count as int, cpus as int).category_workers - 1,
{
    let c: int = if cpus < 1 { 1 } else { cpus as int };
    assert(c / 4 >= 0);
    assert(cpus >= 16 ==> c / 4 >= 4);
    let l = limits_spec(count as int, cpus as int);
    assert(1 <= l.category_workers <= 4);
    let q = c / (l.category_workers as int * 2);
    assert(q >= 0) by (nonlinear_arith)
        requires
            c >= 1,
            l.category_workers >= 1,
            q == c / (l.category_workers as int * 2),
    ;
}

/// A trashed entry is shown by its own file name, or as `trashed item` when
/// its path has none.
pub proof fn law_trash_entries_keep_their_names(p: Seq<char>)
    ensures
        file_name_of(p) matches Some(n) ==> trash_name_spec(p) == n,
        file_name_of(p) is None ==> trash_name_spec(p) == "trashed item"@,
{
}

/// A label ends in its suffix only when that suffix adds something: for a
/// file, for the file's own name or for one of the category words `large
/// file`, `cache` and `logs`, the label is the path relative to home alone;
/// otherwise a suffix is appended after a dash, and without one the parent
/// folder's name comes first.
pub proof fn law_labels(path: Seq<char>, suffix: Seq<char>, home: Seq<char>, is_file: bool)
    ensures
        generic_suffix(suffix) <==> (suffix == "large file"@ || suffix == "cache"@ || suffix == "logs"@),
        suffix.len() > 0 && (is_file || suffix == "large file"@ || suffix == "cache"@ || suffix == "logs"@
            || file_name_of(path) == Some(suffix)) ==> label_spec(path, suffix, home, is_file)
            == relative_to(path, home),
        suffix.len() > 0 && !is_file && !generic_suffix(suffix) && file_name_of(path) != Some(suffix)
            ==> label_spec(path, suffix, home, is_file) == relative_to(path, home) + " \u{2014} "@ + suffix,
        suffix.len() == 0 ==> label_spec(path, suffix, home, is_file) == (match crate::paths::parent_name_of(path) {
            Some(n) => n,
            None => "unknown"@,
        }) + " \u{2014} "@ + relative_to(path, home),
{
    if suffix.len() > 0 && file_name_of(path) == Some(suffix) {
        assert(suffix == file_name_of(path)->0);
    }
    if suffix.len() > 0 && !is_file && !generic_suffix(suffix) && file_name_of(path) != Some(suffix) {
        if let Some(n) = file_name_of(path) {
            assert(suffix != n);
        } else {
            assert(suffix != Seq::<char>::empty());
        }
    }
}

/// The selection keys, with no dialog open: `a` selects and `A` deselects
/// every item of the category on screen, `i` inverts it and Space flips the
/// item under the cursor, while `s` selects exactly the Safe items of every
/// category and `n` clears every selection. Keepers of duplicate sets are
/// never selected by any of them, no list changes length, and none of these keys quits or starts
/// work; `q` and Esc quit and change nothing.
pub proof fn law_selection_keys(a: App, key: Key, b: App, r: Reaction, c: Category, k: int)
    requires
        main_key_post(a, key, b, r),
        0 <= k < a.results.cat_items(c).len(),
    ensures
        key.code == KeyCode::Char('q') || key.code == KeyCode::Esc ==> r.quit && b == a,
        key.code == KeyCode::Char('a') || key.code == KeyCode::Char('A') || key.code == KeyCode::Char('i')
            || key.code == KeyCode::Char(' ') || key.code == KeyCode::Char('s') || key.code == KeyCode::Char('n')
            ==> {
            &&& !r.quit
            &&& r.effect is Nothing
            &&& b.results.cat_items(c).len() == a.results.cat_items(c).len()
            &&& a.results.cat_items(c)[k].is_keeper && key.code != KeyCode::Char('n') && key.code
                != KeyCode::Char('s') ==> b.results.cat_items(c)[k] == a.results.cat_items(c)[k]
        },
        key.code == KeyCode::Char('a') ==> b.results.cat_items(c)[k].selected == (if c == a.current_category
            && !a.results.cat_items(c)[k].is_keeper { true } else { a.results.cat_items(c)[k].selected }),
        key.code == KeyCode::Char('A') ==> b.results.cat_items(c)[k].selected == (if c == a.current_category
            && !a.results.cat_items(c)[k].is_keeper { false } else { a.results.cat_items(c)[k].selected }),
        key.code == KeyCode::Char('i') ==> b.results.cat_items(c)[k].selected == (if c == a.current_category
            && !a.results.cat_items(c)[k].is_keeper {
            !a.results.cat_items(c)[k].selected
        } else {
            a.results.cat_items(c)[k].selected
        }),
        key.code == KeyCode::Char(' ') ==> b.results.cat_items(c)[k].selected == (if c == a.current_category
            && k == a.selected_row && !a.results.cat_items(c)[k].is_keeper {
            !a.results.cat_items(c)[k].selected
        } else {
            a.results.cat_items(c)[k].selected
        }),
        key.code == KeyCode::Char('s') ==> b.results.cat_items(c)[k].selected == (a.results.cat_items(c)[k].tier
            == SafetyTier::Safe && !a.results.cat_items(c)[k].is_keeper),
        key.code == KeyCode::Char('n') ==> !b.results.cat_items(c)[k].selected,
{
    if key.code == KeyCode::Char('a') || key.code == KeyCode::Char('A') || key.code == KeyCode::Char('i')
        || key.code == KeyCode::Char(' ') || key.code == KeyCode::Char('s') || key.code == KeyCode::Char('n') {
        let s = a.results.cat_items(c);
        let t = b.results.cat_items(c);
        if key.code == KeyCode::Char('a') {
            assert(t == (if c == a.current_category { all_set(s, true) } else { s }));
        } else if key.code == KeyCode::Char('A') {
            assert(t == (if c == a.current_category { all_set(s, false) } else { s }));
        } else if key.code == KeyCode::Char('i') {
            assert(t == (if c == a.current_category { inverted(s) } else { s }));
        } else if key.code == KeyCode::Char(' ') {
            assert(t == (if c == a.current_category { toggled_at(s, a.selected_row as int) } else { s }));
        } else if key.code == KeyCode::Char('s') {
            assert(t == safe_only(s));
        } else {
            assert(t == cleared(s));
        }
    }
}

/// The moving keys, with no dialog open: Down and `j` move the cursor one
/// row down and Up and `k` one row up, never off the list; Tab moves to the
/// next category of the list and Shift-Tab to the previous one, wrapping
/// around, with the cursor on the first row; `?` opens the help, and `r`
/// starts a scan of every category of the list. None of them quits.
pub proof fn law_moving_keys(a: App, key: Key, b: App, r: Reaction)
    requires
        main_key_post(a, key, b, r),
    ensures
        key.code == KeyCode::Down || key.code == KeyCode::Char('j') || key.code == KeyCode::Up || key.code
            == KeyCode::Char('k') || key.code == KeyCode::Tab || key.code == KeyCode::BackTab || key.code
            == KeyCode::Char('?') || key.code == KeyCode::Char('r') ==> !r.quit,
        (key.code == KeyCode::Down || key.code == KeyCode::Char('j')) && a.selected_row + 1 < a.results.cat_items(
            a.current_category,
        ).len() ==> b.selected_row == a.selected_row + 1,
        (key.code == KeyCode::Down || key.code == KeyCode::Char('j')) && a.results.cat_items(a.current_category).len()
            > 0 && a.selected_row + 1 >= a.results.cat_items(a.current_category).len() ==> b.selected_row
            == a.results.cat_items(a.current_category).len() - 1,
        (key.code == KeyCode::Up || key.code == KeyCode::Char('k')) && 1 <= a.selected_row
            <= a.results.cat_items(a.current_category).len() ==> b.selected_row == a.selected_row - 1,
        (key.code == KeyCode::Up || key.code == KeyCode::Char('k')) && a.selected_row == 0 ==> b.selected_row == 0,
        key.code == KeyCode::Tab || key.code == KeyCode::BackTab ==> b.selected_row == 0 && b.scroll == 0
            && !b.show_dashboard && b.categories == a.categories,
        key.code == KeyCode::Tab ==> b.current_category == a.categories@[(if position_of(
            a.categories@,
            a.current_category,
        ) < 0 { 0 } else { position_of(a.categories@, a.current_category) } + 1) % (a.categories@.len() as int)],
        key.code == KeyCode::BackTab ==> b.current_category == a.categories@[(if position_of(
            a.categories@,
            a.current_category,
        ) < 0 { 0 } else { position_of(a.categories@, a.current_category) } - 1) % (a.categories@.len() as int)],
        key.code == KeyCode::Char('?') ==> b == (App { modal: Modal::Help, ..a }) && r.effect is Nothing,
        key.code == KeyCode::Char('r') ==> b.scanning && (r.effect matches Effect::StartScan(cats)
            && cats@ == a.categories@),
{
    let len = a.results.cat_items(a.current_category).len() as int;
    if key.code == KeyCode::Down || key.code == KeyCode::Char('j') {
        assert(move_post(a, b, 1));
        let v = a.results.items@[crate::model::cat_index(a.current_category)];
        assert(v.len() == v@.len());
        if a.selected_row + 1 < len {
            assert(clamp_row(a.selected_row + 1, len) == a.selected_row + 1);
            assert(b.selected_row == clamp_row(a.selected_row + 1, len));
        }
    }
}

/// The answers in the dialogs. In the clean confirmation, `y` or `Y` hands
/// the whole selection to the cleaner (if anything is selected), permanently
/// when the confirmation said so or the delete mode is permanent, and `n` or
/// Esc closes it with nothing done; in the Full Disk Access dialog, `o` or
/// `O` opens the settings; in the Docker dialog, `y` or `Y` starts Docker;
/// in each of these three any other key but `n` and Esc changes nothing.
/// Control-Q quits from any dialog, and nothing else does.
pub proof fn law_dialog_answers(a: App, key: Key, b: App, r: Reaction)
    requires
        modal_key_post(a, key, b, r),
    ensures
        r.quit <==> (key.code == KeyCode::Char('q') && key.ctrl),
        a.modal matches Modal::ConfirmClean { permanent, .. } ==> ((key.code == KeyCode::Char('y') || key.code
            == KeyCode::Char('Y')) && chosen_items(a.results.every_item()).len() > 0 ==> {
            &&& b.cleaning
            &&& b.modal is Closed
            &&& r.effect matches Effect::Clean(items, opts) && items@ == chosen_items(a.results.every_item())
                && opts.permanent == (permanent || a.config.delete_mode == DeleteMode::Permanent)
                && opts.dry_run == a.dry_run && opts.mode == a.config.delete_mode
        }),
        (a.modal is ConfirmClean || a.modal is Fda || a.modal is DockerStart) && (key.code == KeyCode::Char('n')
            || key.code == KeyCode::Esc) ==> b == (App { modal: Modal::Closed, ..a }) && r.effect is Nothing,
        a.modal is Fda && (key.code == KeyCode::Char('o') || key.code == KeyCode::Char('O')) ==> b == a
            && r.effect is OpenFdaSettings,
        a.modal is DockerStart && (key.code == KeyCode::Char('y') || key.code == KeyCode::Char('Y')) ==> b == (App {
            modal: Modal::Closed,
            ..a
        }) && r.effect is StartDocker,
        (a.modal is ConfirmClean || a.modal is DockerStart) && key.code != KeyCode::Char('y') && key.code
            != KeyCode::Char('Y') && key.code != KeyCode::Char('n') && key.code != KeyCode::Esc ==> b == a
            && r.effect is Nothing,
        a.modal is Fda && key.code != KeyCode::Char('o') && key.code != KeyCode::Char('O') && key.code
            != KeyCode::Char('n') && key.code != KeyCode::Esc ==> b == a && r.effect is Nothing,
{
}

proof fn lemma_size_unit_brackets(b: nat, u: nat)
    requires
        u <= 5,
        pow1024(u) <= b,
    ensures
        u <= size_unit(b, u) <= 5,
        pow1024(size_unit(b, u)) <= b,
        size_unit(b, u) < 5 ==> b < pow1024(size_unit(b, u) + 1),
    decreases 5 - u,
{
    if u < 5 && b >= pow1024(u + 1) {
        lemma_size_unit_brackets(b, u + 1);
    }
}

/// Sizes are shown in the largest of B, KB, MB, GB, TB and PB that the byte
/// count reaches, counting 1024 to the step: the count is at least one of
/// that unit and, below PB, less than one of the next. Zero shows as `0 B`
/// and a count below 1024 as the plain number of bytes.
pub proof fn law_size_units(b: nat)
    ensures
        b >= 1 ==> size_unit(b, 0) <= 5 && pow1024(size_unit(b, 0)) <= b && (size_unit(b, 0) < 5 ==> b < pow1024(
            size_unit(b, 0) + 1,
        )),
        unit_name(0) == "B"@ && unit_name(1) == "KB"@ && unit_name(2) == "MB"@,
        unit_name(3) == "GB"@ && unit_name(4) == "TB"@ && unit_name(5) == "PB"@,
        human_size_spec(0) == "0 B"@,
        1 <= b < 1024 ==> human_size_spec(b) == dec(b) + " B"@,
{
    reveal_strlit("B");
    reveal_strlit("KB");
    reveal_strlit("MB");
    reveal_strlit("GB");
    reveal_strlit("TB");
    reveal_strlit("PB");
    reveal_strlit("0 B");
    reveal_strlit(" B");
    reveal_with_fuel(pow1024, 2);
    if b >= 1 {
        lemma_size_unit_brackets(b, 0);
    }
    if 1 <= b < 1024 {
        assert(size_unit(b, 0) == 0);
    }
    assert(unit_name(0) =~= "B"@);
    assert(unit_name(1) =~= "KB"@);
    assert(unit_name(2) =~= "MB"@);
    assert(unit_name(3) =~= "GB"@);
    assert(unit_name(4) =~= "TB"@);
    assert(unit_name(5) =~= "PB"@);
    assert(human_size_spec(0) =~= "0 B"@);
}

/// A category list such as `caches, logs ,dev` names exactly the
/// categories whose slug is one of its comma-separated pieces, surrounding
/// whitespace ignored, and never more categories than pieces.
pub proof fn law_named_categories(pieces: Seq<Seq<char>>, c: Category)
    ensures
        named_categories(pieces).len() <= pieces.len(),
        named_categories(pieces).contains(c) <==> exists|k: int|
            0 <= k < pieces.len() && trim(#[trigger] pieces[k]) == cat_slug(c),
    decreases pieces.len(),
{
    if pieces.len() > 0 {
        let prev = pieces.drop_last();
        let last = trim(pieces.last());
        law_named_categories(prev, c);
        law_slugs_round_trip(c, last);
        let here = named_categories(pieces);
        let before = named_categories(prev);
        if exists|k: int| 0 <= k < prev.len() && trim(#[trigger] prev[k]) == cat_slug(c) {
            let k = choose|k: int| 0 <= k < prev.len() && trim(#[trigger] prev[k]) == cat_slug(c);
            assert(pieces[k] == prev[k]);
        }
        if exists|k: int| 0 <= k < pieces.len() && trim(#[trigger] pieces[k]) == cat_slug(c) {
            let k = choose|k: int| 0 <= k < pieces.len() && trim(#[trigger] pieces[k]) == cat_slug(c);
            if k < prev.len() {
                assert(prev[k] == pieces[k]);
            } else {
                assert(last == cat_slug(c));
            }
        }
        if last == cat_slug(c) {
            assert(trim(pieces[pieces.len() - 1]) == cat_slug(c));
        }
        match cat_from_slug(last) {
            Some(d) => {
                assert(here == before.push(d));
                if before.contains(c) {
                    let i = choose|i: int| 0 <= i < before.len() && before[i] == c;
                    assert(here[i] == c);
                }
                if d == c {
                    assert(here[before.len() as int] == c);
                }
                if here.contains(c) {
                    let i = choose|i: int| 0 <= i < here.len() && here[i] == c;
                    if i < before.len() {
                        assert(before[i] == c);
                    }
                }
            },
            None => {
                assert(here == before);
            },
        }
    }
}

/// How long ago an item was used reads `new` the same day, in days up to 59
/// days, in whole months of 30 days up to 364 days and in whole years of 365
/// days after that.
pub proof fn law_age_labels(d: nat)
    ensures
        d == 0 ==> age_label_spec(d) == "new"@,
        1 <= d <= 59 ==> age_label_spec(d) == dec(d) + "d"@,
        60 <= d <= 364 ==> age_label_spec(d) == dec(d / 30) + "mo"@,
        365 <= d ==> age_label_spec(d) == dec(d / 365) + "y"@,
{
}

/// Terminal.app is never sent RGB colours; any other terminal is when
/// `COLORTERM` mentions `truecolor` or `24bit` in any letter case, or when it
/// is iTerm, WezTerm, VS Code, Hyper, kitty or Ghostty; otherwise it is not.
pub proof fn law_truecolor_terminals(term_program: Option<&str>, colorterm: Option<&str>)
    ensures
        (term_program matches Some(p) && p@ == "Apple_Terminal"@) ==> !truecolor_terminal(term_program, colorterm),
        !(term_program matches Some(p) && p@ == "Apple_Terminal"@) ==> (truecolor_terminal(term_program, colorterm)
            <==> (colorterm matches Some(v) && (contains_folded(v@, "truecolor"@) || contains_folded(v@, "24bit"@)))
            || (term_program matches Some(p) && (p@ == "iTerm.app"@ || p@ == "WezTerm"@ || p@ == "vscode"@ || p@
            == "Hyper"@ || p@ == "kitty"@ || p@ == "ghostty"@))),
{
}

/// A developer-tool location is noted by what it holds: Xcode DerivedData
/// as a rebuildable cache, and Xcode archives, device support files and
/// CoreSimulator data (in that order of precedence), or any other tool
/// artifact, as items to review.
pub proof fn law_review_notes(p: Seq<char>)
    ensures
        contains_seq(p, "DerivedData"@) ==> review_note_spec(p)
            == "Xcode DerivedData \u{2014} rebuildable project cache"@,
        !contains_seq(p, "DerivedData"@) && contains_seq(p, "Archives"@) ==> review_note_spec(p)
            == "Xcode archives \u{2014} review before deleting"@,
        !contains_seq(p, "DerivedData"@) && !contains_seq(p, "Archives"@) && contains_seq(p, "DeviceSupport"@)
            ==> review_note_spec(p) == "Xcode device support files \u{2014} review before deleting"@,
        !contains_seq(p, "DerivedData"@) && !contains_seq(p, "Archives"@) && !contains_seq(p, "DeviceSupport"@)
            && contains_seq(p, "CoreSimulator"@) ==> review_note_spec(p)
            == "CoreSimulator data \u{2014} review before deleting"@,
        !contains_seq(p, "DerivedData"@) && !contains_seq(p, "Archives"@) && !contains_seq(p, "DeviceSupport"@)
            && !contains_seq(p, "CoreSimulator"@) ==> review_note_spec(p)
            == "developer tool artifact \u{2014} review before deleting"@,
{
}

/// In a project root, a folder that is not pruned is listed as build output
/// when its name is one of the configured artifact names, else as
/// dependencies when it is one of the configured dependency names, and is
/// walked into otherwise.
pub proof fn law_dir_verdicts(cfg: Config, m: Matchers, path: Seq<char>, name: Seq<char>)
    requires
        !skip_dir_spec(m, path),
    ensures
        strs(cfg.dev_artifacts.artifact_dir_names@).contains(name) ==> dir_verdict_spec(cfg, m, path, name)
            == DirVerdict::Artifact,
        !strs(cfg.dev_artifacts.artifact_dir_names@).contains(name) && strs(
            cfg.dev_artifacts.dependency_dir_names@,
        ).contains(name) ==> dir_verdict_spec(cfg, m, path, name) == DirVerdict::Dependency,
        !strs(cfg.dev_artifacts.artifact_dir_names@).contains(name) && !strs(
            cfg.dev_artifacts.dependency_dir_names@,
        ).contains(name) ==> dir_verdict_spec(cfg, m, path, name) == DirVerdict::Descend,
{
}

/// A failed eviction reports what `brctl` wrote to its error stream, trimmed,
/// or `brctl evict failed` when it wrote nothing but blanks.
pub proof fn law_evict_failures(stderr: Seq<char>)
    ensures
        trim(stderr).len() == 0 ==> evict_failure_spec(stderr) == "brctl evict failed"@,
        trim(stderr).len() > 0 ==> evict_failure_spec(stderr) == trim(stderr),
{
}

} // verus!
