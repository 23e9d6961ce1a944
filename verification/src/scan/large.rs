//! Large-file scanner decisions: what is big enough to list, and which
//! installers and archives are listed once stale even below that.
use vstd::prelude::*;
use crate::config::LargeConfig;
use crate::model::{Category, ItemAction, SafetyTier, ScanItem, item_is};
use crate::paths::{file_name, file_name_of};
use crate::text::{chars_of, ends_with_folded, ends_with_folded_chars, lower_ascii_text};

verus! {

/// A file name that ends (in any letter case) like an installer or archive.
pub open spec fn archive_name(n: Seq<char>) -> bool {
    ||| ends_with_folded(n, ".dmg"@)
    ||| ends_with_folded(n, ".pkg"@)
    ||| ends_with_folded(n, ".zip"@)
    ||| ends_with_folded(n, ".tar"@)
    ||| ends_with_folded(n, ".tar.gz"@)
    ||| ends_with_folded(n, ".tgz"@)
    ||| ends_with_folded(n, ".iso"@)
    ||| ends_with_folded(n, ".run"@)
}

pub open spec fn archive_path(p: Seq<char>) -> bool {
    match file_name_of(p) {
        Some(n) => archive_name(n),
        None => false,
    }
}

fn ends_folded(n: &Vec<char>, suffix: &str) -> (r: bool)
    requires
        lower_ascii_text(suffix@),
    ensures
        r == ends_with_folded(n@, suffix@),
{
    ends_with_folded_chars(n, &chars_of(suffix))
}

/// Whether a path names an installer or archive (`.dmg`, `.pkg`, `.zip`,
/// `.tar`, `.tar.gz`, `.tgz`, `.iso`, `.run`, in any letter case).
pub fn is_installer_or_archive(path: &str) -> (r: bool)
    ensures
        r == archive_path(path@),
{
    proof {
        reveal_strlit(".dmg");
        reveal_strlit(".pkg");
        reveal_strlit(".zip");
        reveal_strlit(".tar");
        reveal_strlit(".tar.gz");
        reveal_strlit(".tgz");
        reveal_strlit(".iso");
        reveal_strlit(".run");
    }
    match file_name(&chars_of(path)) {
        None => false,
        Some(n) => ends_folded(&n, ".dmg") || ends_folded(&n, ".pkg") || ends_folded(&n, ".zip")
            || ends_folded(&n, ".tar") || ends_folded(&n, ".tar.gz") || ends_folded(&n, ".tgz")
            || ends_folded(&n, ".iso") || ends_folded(&n, ".run"),
    }
}

/// A stale installer or archive: at least the stale size and unused for at
/// least the stale days.
pub open spec fn stale_archive(path: Seq<char>, bytes: u64, days: u32, cfg: LargeConfig) -> bool {
    archive_path(path) && bytes >= cfg.stale_archive_min_bytes && days >= cfg.stale_archive_days
}

pub open spec fn large_note_spec(stale: bool) -> Seq<char> {
    if stale {
        "stale installer/archive \u{2014} review before deleting"@
    } else {
        "user file \u{2014} review before deleting"@
    }
}

/// The item for a regular file of `bytes` last used `days` ago: listed when
/// it reaches the size threshold or is a stale installer or archive.
pub fn large_file_item(path: String, label: String, bytes: u64, days: u32, cfg: &LargeConfig) -> (r: Option<ScanItem>)
    ensures
        bytes < cfg.min_bytes && !stale_archive(path@, bytes, days, *cfg) ==> r is None,
        !(bytes < cfg.min_bytes && !stale_archive(path@, bytes, days, *cfg)) ==> (r matches Some(i) && item_is(
            i,
            path@,
            label@,
            bytes,
            SafetyTier::Moderate,
            Category::LargeFiles,
            large_note_spec(stale_archive(path@, bytes, days, *cfg)),
            days,
            ItemAction::Delete,
        )),
{
    let stale = is_installer_or_archive(path.as_str()) && bytes >= cfg.stale_archive_min_bytes && days
        >= cfg.stale_archive_days;
    if bytes < cfg.min_bytes && !stale {
        return None;
    }
    let note = if stale {
        "stale installer/archive \u{2014} review before deleting"
    } else {
        "user file \u{2014} review before deleting"
    };
    Some(ScanItem::new(path, label, bytes, SafetyTier::Moderate, Category::LargeFiles).with_age(days).with_note(note))
}

} // verus!
