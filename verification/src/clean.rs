//! Cleaning decisions.
//!
//! For each selected item the library decides what has to happen on disk
//! ([`plan_clean`]), and keeps the running account of a clean run
//! ([`CleanTally`]): items done, bytes freed, failures. The application
//! performs each step and reports back what happened.
use vstd::prelude::*;
use crate::config::DeleteMode;
use crate::event::WorkerMsg;
use crate::fs_util::{is_in_user_trash, trash_dir_spec, human_size};
use crate::model::{Category, DockerPrune, ItemAction, ScanItem, prune_args};
use crate::paths::path_starts_with;
use crate::text::{trim_chars, trim, chars_of, string_from, owned};

verus! {

#[derive(Debug, Clone, Copy, PartialEq, Eq, Structural)]
pub struct CleanOptions {
    pub permanent: bool,
    pub dry_run: bool,
    pub mode: DeleteMode,
}

/// Whether a Delete bypasses the Trash: forced permanent, permanent mode, an
/// item of the Trash category, or a path already inside the user's Trash
/// (of home directory `home`).
pub open spec fn permanent_delete(item: ScanItem, opts: CleanOptions, home: Seq<char>) -> bool {
    opts.permanent || opts.mode == DeleteMode::Permanent || item.category == Category::Trash
        || path_starts_with(item.path@, trash_dir_spec(home))
}

pub fn should_delete_permanently(item: &ScanItem, opts: &CleanOptions) -> (r: bool)
    ensures
        exists|home: Seq<char>| r == permanent_delete(*item, *opts, home),
        opts.permanent || opts.mode == DeleteMode::Permanent || item.category == Category::Trash ==> r,
{
    if opts.permanent || opts.mode == DeleteMode::Permanent || item.category == Category::Trash {
        assert(permanent_delete(*item, *opts, Seq::empty()));
        return true;
    }
    let r = is_in_user_trash(item.path.as_str());
    let ghost h = choose|h: Seq<char>| r == path_starts_with(item.path@, trash_dir_spec(h));
    assert(r == permanent_delete(*item, *opts, h));
    r
}

/// What cleaning one item takes.
#[derive(Debug, Clone, PartialEq, Eq)]
pub enum CleanStep {
    /// Nothing to do: the path is already gone. Frees nothing.
    Skip,
    /// Remove the path for good (`remove_dir_all` / `remove_file`).
    RemovePermanently(String),
    /// Move the path to the Trash.
    MoveToTrash(String),
    /// Truncate the file in place.
    Truncate(String),
    /// Evict the local copy of an iCloud document.
    Evict(String),
    /// Empty the Trash.
    EmptyTrash,
    /// Run a Docker prune.
    DockerPrune(DockerPrune),
}

/// The step for an item, given whether its path currently exists and whether
/// a delete goes past the Trash.
pub open spec fn plan_spec(item: ScanItem, exists: bool, permanent: bool) -> CleanStep {
    match item.action {
        ItemAction::Delete => if !exists {
            CleanStep::Skip
        } else if permanent {
            CleanStep::RemovePermanently(item.path)
        } else {
            CleanStep::MoveToTrash(item.path)
        },
        ItemAction::Truncate => CleanStep::Truncate(item.path),
        ItemAction::Evict => CleanStep::Evict(item.path),
        ItemAction::EmptyTrash => CleanStep::EmptyTrash,
        ItemAction::DockerPrune(k) => CleanStep::DockerPrune(k),
    }
}

/// Decides what cleaning `item` takes. `path_exists` is what the filesystem
/// reported for the item's path just before.
pub fn plan_clean(item: &ScanItem, opts: &CleanOptions, path_exists: bool) -> (r: CleanStep)
    ensures
        exists|home: Seq<char>| r == plan_spec(*item, path_exists, permanent_delete(*item, *opts, home)),
{
    match item.action {
        ItemAction::Delete => {
            if !path_exists {
                assert(CleanStep::Skip == plan_spec(*item, path_exists, permanent_delete(*item, *opts, Seq::empty())));
                return CleanStep::Skip;
            }
            let permanent = should_delete_permanently(item, opts);
            let ghost h = choose|home: Seq<char>| permanent == permanent_delete(*item, *opts, home);
            let r = if permanent {
                CleanStep::RemovePermanently(item.path.clone())
            } else {
                CleanStep::MoveToTrash(item.path.clone())
            };
            assert(r == plan_spec(*item, path_exists, permanent_delete(*item, *opts, h)));
            r
        },
        _ => {
            let r = match item.action {
                ItemAction::Truncate => CleanStep::Truncate(item.path.clone()),
                ItemAction::Evict => CleanStep::Evict(item.path.clone()),
                ItemAction::EmptyTrash => CleanStep::EmptyTrash,
                ItemAction::DockerPrune(k) => CleanStep::DockerPrune(k),
                ItemAction::Delete => CleanStep::Skip,
            };
            assert(r == plan_spec(*item, path_exists, permanent_delete(*item, *opts, Seq::empty())));
            r
        },
    }
}

/// Bytes credited for a step that succeeded: nothing for a skip, the item's
/// real size otherwise.
pub open spec fn credited(item: ScanItem, step: CleanStep) -> u64 {
    match step {
        CleanStep::Skip => 0,
        _ => item.real_bytes,
    }
}

pub fn credited_bytes(item: &ScanItem, step: &CleanStep) -> (r: u64)
    ensures
        r == credited(*item, *step),
{
    match step {
        CleanStep::Skip => 0,
        _ => item.real_bytes,
    }
}

/// Saturating addition of byte counts.
pub open spec fn sat_add(a: u64, b: u64) -> u64 {
    if a + b > u64::MAX {
        u64::MAX
    } else {
        (a + b) as u64
    }
}

pub fn saturating_add_u64(a: u64, b: u64) -> (r: u64)
    ensures
        r == sat_add(a, b),
{
    if a <= u64::MAX - b {
        a + b
    } else {
        u64::MAX
    }
}

/// The running account of a clean run.
#[derive(Debug, Clone)]
pub struct CleanTally {
    pub total: usize,
    pub done: usize,
    pub freed: u64,
    pub failures: Vec<String>,
}

impl CleanTally {
    /// A run over `total` items.
    pub fn new(total: usize) -> (r: Self)
        ensures
            r.total == total,
            r.done == 0,
            r.freed == 0,
            r.failures@.len() == 0,
    {
        CleanTally { total, done: 0, freed: 0, failures: Vec::new() }
    }

    /// Records one item: `outcome` is the bytes it freed, or the error text.
    /// Failures are listed as `"{path}: {error}"`. Returns the progress message.
    pub fn record(&mut self, path: &str, outcome: Result<u64, String>) -> (r: WorkerMsg)
        requires
            old(self).done < old(self).total,
        ensures
            final(self).total == old(self).total,
            final(self).done == old(self).done + 1,
            final(self).freed == (match outcome {
                Ok(b) => sat_add(old(self).freed, b),
                Err(_) => old(self).freed,
            }),
            final(self).failures@ == (match outcome {
                Ok(_) => old(self).failures@,
                Err(e) => old(self).failures@.push(final(self).failures@.last()),
            }),
            outcome matches Err(e) ==> final(self).failures@.last()@ == path@ + ": "@ + e@,
            r == (WorkerMsg::CleanProgress {
                done: final(self).done,
                total: final(self).total,
                freed: final(self).freed,
            }),
    {
        match outcome {
            Ok(b) => {
                self.freed = saturating_add_u64(self.freed, b);
            },
            Err(e) => {
                let mut msg = owned(path);
                msg.append(": ");
                msg.append(e.as_str());
                self.failures.push(msg);
            },
        }
        self.done = self.done + 1;
        WorkerMsg::CleanProgress { done: self.done, total: self.total, freed: self.freed }
    }

    /// Records one item of a dry run: nothing is touched and the item's size is
    /// counted as freed.
    pub fn record_dry_run(&mut self, item: &ScanItem) -> (r: WorkerMsg)
        requires
            old(self).done < old(self).total,
        ensures
            final(self).total == old(self).total,
            final(self).done == old(self).done + 1,
            final(self).freed == sat_add(old(self).freed, item.real_bytes),
            final(self).failures == old(self).failures,
            r == (WorkerMsg::CleanProgress {
                done: final(self).done,
                total: final(self).total,
                freed: final(self).freed,
            }),
    {
        self.freed = saturating_add_u64(self.freed, item.real_bytes);
        self.done = self.done + 1;
        WorkerMsg::CleanProgress { done: self.done, total: self.total, freed: self.freed }
    }

    /// The final message of the run.
    pub fn finish(self) -> (r: WorkerMsg)
        ensures
            r == (WorkerMsg::CleanDone { freed: self.freed, failures: self.failures }),
    {
        WorkerMsg::CleanDone { freed: self.freed, failures: self.failures }
    }
}

/// Bytes freed after the first `k` items of a run: a dry run counts every
/// item's size; otherwise each item counts what its outcome freed, and a
/// failure counts nothing. Sums saturate.
pub open spec fn run_freed(items: Seq<ScanItem>, outcomes: Seq<Result<u64, String>>, dry_run: bool, k: int) -> u64
    decreases k,
{
    if k <= 0 {
        0
    } else {
        let f = run_freed(items, outcomes, dry_run, k - 1);
        if dry_run {
            sat_add(f, items[k - 1].real_bytes)
        } else {
            match outcomes[k - 1] {
                Ok(b) => sat_add(f, b),
                Err(_) => f,
            }
        }
    }
}

/// Failures after the first `k` items of a run, as `"{path}: {error}"`, in
/// order; a dry run has none.
pub open spec fn run_failures(items: Seq<ScanItem>, outcomes: Seq<Result<u64, String>>, dry_run: bool, k: int) -> Seq<Seq<char>>
    decreases k,
{
    if k <= 0 {
        Seq::empty()
    } else {
        let f = run_failures(items, outcomes, dry_run, k - 1);
        if dry_run {
            f
        } else {
            match outcomes[k - 1] {
                Ok(_) => f,
                Err(e) => f.push(items[k - 1].path@ + ": "@ + e@),
            }
        }
    }
}

/// The failure texts of a done message.
pub open spec fn texts(v: Seq<String>) -> Seq<Seq<char>> {
    v.map_values(|s: String| s@)
}

/// The messages of a whole clean run over `items`, given what carrying out
/// each item gave (`outcomes`, one per item; unused in a dry run): one
/// progress message per item, in order, counting the items done, then one
/// done message with the bytes freed and the failures.
pub fn clean_run(items: &Vec<ScanItem>, dry_run: bool, outcomes: &Vec<Result<u64, String>>) -> (r: Vec<WorkerMsg>)
    requires
        dry_run || outcomes@.len() == items@.len(),
    ensures
        r@.len() == items@.len() + 1,
        forall|k: int|
            0 <= k < items@.len() ==> #[trigger] r@[k] == (WorkerMsg::CleanProgress {
                done: (k + 1) as usize,
                total: items@.len() as usize,
                freed: run_freed(items@, outcomes@, dry_run, k + 1),
            }),
        r@[items@.len() as int] matches WorkerMsg::CleanDone { freed, failures } && freed == run_freed(
            items@,
            outcomes@,
            dry_run,
            items@.len() as int,
        ) && texts(failures@) == run_failures(items@, outcomes@, dry_run, items@.len() as int),
{
    let n = items.len();
    let mut tally = CleanTally::new(n);
    let mut out: Vec<WorkerMsg> = Vec::new();
    assert(texts(tally.failures@) =~= Seq::<Seq<char>>::empty());
    for i in 0..n
        invariant
            n == items@.len(),
            dry_run || outcomes@.len() == items@.len(),
            tally.total == n,
            tally.done == i,
            tally.freed == run_freed(items@, outcomes@, dry_run, i as int),
            texts(tally.failures@) == run_failures(items@, outcomes@, dry_run, i as int),
            out@.len() == i,
            forall|k: int|
                0 <= k < i ==> #[trigger] out@[k] == (WorkerMsg::CleanProgress {
                    done: (k + 1) as usize,
                    total: n,
                    freed: run_freed(items@, outcomes@, dry_run, k + 1),
                }),
    {
        let ghost before = tally.failures@;
        let msg = if dry_run {
            tally.record_dry_run(&items[i])
        } else {
            let o: Result<u64, String> = match &outcomes[i] {
                Ok(b) => Ok(*b),
                Err(e) => Err(e.clone()),
            };
            let m = tally.record(items[i].path.as_str(), o);
            proof {
                match outcomes@[i as int] {
                    Ok(_) => {},
                    Err(e) => {
                        assert(texts(tally.failures@) =~= texts(before).push(items@[i as int].path@ + ": "@ + e@));
                    },
                }
            }
            m
        };
        out.push(msg);
    }
    out.push(tally.finish());
    out
}

/// The message of a failed `brctl evict`: its trimmed standard error, or a
/// generic message when that is empty.
pub open spec fn evict_failure_spec(stderr: Seq<char>) -> Seq<char> {
    if trim(stderr).len() == 0 {
        "brctl evict failed"@
    } else {
        trim(stderr)
    }
}

pub fn evict_failure(stderr: &str) -> (r: String)
    ensures
        r@ == evict_failure_spec(stderr@),
{
    let t = trim_chars(&chars_of(stderr));
    if t.len() == 0 {
        owned("brctl evict failed")
    } else {
        string_from(&t)
    }
}

/// The command line that evicts `path`: `brctl evict` runs as the iCloud
/// account owner, so as root it goes through `sudo -u` the invoking user, and
/// without one it cannot run.
pub open spec fn evict_command_spec(path: Seq<char>, is_root: bool, user: Option<Seq<char>>) -> Result<Seq<Seq<char>>, Seq<char>> {
    if is_root {
        match user {
            Some(u) => Ok(seq!["sudo"@, "-u"@, u, "brctl"@, "evict"@, path]),
            None => Err("iCloud evict cannot run as root (launch via sudo or use --no-elevate)"@),
        }
    } else {
        Ok(seq!["brctl"@, "evict"@, path])
    }
}

pub fn evict_command(path: &str, is_root: bool, user: Option<&str>) -> (r: Result<Vec<String>, String>)
    ensures
        match (r, evict_command_spec(path@, is_root, match user { Some(u) => Some(u@), None => None })) {
            (Ok(v), Ok(w)) => v@.len() == w.len() && forall|i: int| 0 <= i < w.len() ==> #[trigger] v@[i]@ == w[i],
            (Err(e), Err(f)) => e@ == f,
            _ => false,
        },
{
    if is_root {
        match user {
            Some(u) => Ok(vec![owned("sudo"), owned("-u"), owned(u), owned("brctl"), owned("evict"), owned(path)]),
            None => Err(owned("iCloud evict cannot run as root (launch via sudo or use --no-elevate)")),
        }
    } else {
        Ok(vec![owned("brctl"), owned("evict"), owned(path)])
    }
}

/// `docker <args> failed`, the message of a failed prune.
pub open spec fn docker_failure_spec(k: DockerPrune) -> Seq<char> {
    let a = prune_args(k);
    "docker "@ + a[0] + " "@ + a[1] + " "@ + a[2] + " failed"@
}

pub fn docker_failure(k: DockerPrune) -> (r: String)
    ensures
        r@ == docker_failure_spec(k),
{
    let a = k.args();
    let mut s = owned("docker ");
    s.append(a[0]);
    s.append(" ");
    s.append(a[1]);
    s.append(" ");
    s.append(a[2]);
    s.append(" failed");
    s
}

} // verus!
