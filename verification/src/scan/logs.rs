//! Log scanner decisions: how old logs are judged, and which logs are
//! truncated rather than deleted.
use vstd::prelude::*;
use crate::model::{Category, ItemAction, SafetyTier, ScanItem, item_is};
use crate::text::owned;

verus! {

/// Logs untouched for at least `age_days` are Safe; newer ones Moderate.
pub open spec fn log_tier_spec(days: u32, age_days: u32) -> SafetyTier {
    if days >= age_days {
        SafetyTier::Safe
    } else {
        SafetyTier::Moderate
    }
}

pub open spec fn log_dir_note_spec(days: u32, age_days: u32) -> Seq<char> {
    if days >= age_days {
        "old logs"@
    } else {
        "recent logs \u{2014} review before deleting"@
    }
}

/// The item for a log directory whose newest entry was used `days` ago.
pub fn log_dir_item(path: String, label: String, bytes: u64, days: u32, age_days: u32) -> (r: ScanItem)
    ensures
        item_is(r, path@, label@, bytes, log_tier_spec(days, age_days), Category::Logs,
            log_dir_note_spec(days, age_days), days, ItemAction::Delete),
{
    let old_logs = days >= age_days;
    let tier = if old_logs {
        SafetyTier::Safe
    } else {
        SafetyTier::Moderate
    };
    let note = if old_logs {
        "old logs"
    } else {
        "recent logs \u{2014} review before deleting"
    };
    ScanItem::new(path, label, bytes, tier, Category::Logs).with_note(note).with_age(days)
}

/// A recent log file is truncated in place when the configuration prefers
/// that; any other log file is deleted.
pub open spec fn log_file_action_spec(days: u32, age_days: u32, truncate_active: bool) -> ItemAction {
    if truncate_active && days < age_days {
        ItemAction::Truncate
    } else {
        ItemAction::Delete
    }
}

/// The item for a single log file; `None` when it occupies no blocks.
pub fn log_file_item(path: String, label: String, bytes: u64, days: u32, age_days: u32, truncate_active: bool) -> (r: Option<ScanItem>)
    ensures
        bytes == 0 ==> r is None,
        bytes > 0 ==> (r matches Some(i) && item_is(i, path@, label@, bytes, log_tier_spec(days, age_days),
            Category::Logs, "log file"@, days, log_file_action_spec(days, age_days, truncate_active))),
{
    if bytes == 0 {
        return None;
    }
    let tier = if days >= age_days {
        SafetyTier::Safe
    } else {
        SafetyTier::Moderate
    };
    let mut item = ScanItem::new(path, label, bytes, tier, Category::Logs).with_age(days).with_note("log file");
    if truncate_active && days < age_days {
        item.action = ItemAction::Truncate;
    }
    Some(item)
}

/// The whole system log folder, listed for root only; `None` when empty.
pub fn system_log_item(bytes: u64) -> (r: Option<ScanItem>)
    ensures
        bytes == 0 ==> r is None,
        bytes > 0 ==> (r matches Some(i) && item_is(i, "/private/var/log"@, "System logs (/private/var/log)"@,
            bytes, SafetyTier::Moderate, Category::Logs, "system logs \u{2014} requires root"@, 0,
            ItemAction::Delete)),
{
    if bytes == 0 {
        return None;
    }
    Some(
        ScanItem::new(
            owned("/private/var/log"),
            owned("System logs (/private/var/log)"),
            bytes,
            SafetyTier::Moderate,
            Category::Logs,
        ).with_note("system logs \u{2014} requires root"),
    )
}

/// The largest of some ages in days (0 for none): a log folder is as recent
/// as its most recently used entry.
pub fn max_days(days: &Vec<u32>) -> (r: u32)
    ensures
        forall|i: int| 0 <= i < days@.len() ==> days@[i] <= r,
        r == 0 || exists|i: int| 0 <= i < days@.len() && days@[i] == r,
{
    let mut m: u32 = 0;
    for i in 0..days.len()
        invariant
            forall|k: int| 0 <= k < i ==> days@[k] <= m,
            m == 0 || exists|k: int| 0 <= k < i && days@[k] == m,
    {
        if days[i] > m {
            m = days[i];
        }
    }
    m
}

} // verus!
