//! Modal overlays: confirm, progress, help, Full Disk Access, Docker.
use vstd::prelude::*;
use crate::model::SafetyTier;
use crate::text::{dec, pad_right, pad_right_spec, push_decimal, push_str};
use crate::fs_util::{human_size, human_size_spec};

verus! {

#[derive(Debug, Clone)]
pub enum Modal {
    Closed,
    Help,
    ConfirmClean { count: usize, bytes: u64, permanent: bool, empty_trash: bool, evict_only: bool },
    CleanProgress { done: usize, total: usize, freed: u64 },
    CleanDone { freed: u64, failures: Vec<String> },
    Fda,
    DockerStart,
}

/// Number of failures listed in the done dialog.
pub const MAX_LISTED_FAILURES: usize = 5;

pub open spec fn failure_lines(f: Seq<String>) -> Seq<char>
    decreases f.len(),
{
    if f.len() == 0 {
        Seq::empty()
    } else {
        failure_lines(f.drop_last()) + "\u{2022} "@ + f.last()@ + "\n"@
    }
}

/// The text shown inside a modal (the help overlay is laid out separately
/// and has none).
pub open spec fn modal_body_spec(m: Modal) -> Seq<char> {
    match m {
        Modal::ConfirmClean { count, bytes, permanent, empty_trash, evict_only } => {
            if empty_trash {
                "Permanently empty Trash ("@ + human_size_spec(bytes as nat)
                    + ")?\n\nThis cannot be undone.\n\n[y] Yes  [n] No"@
            } else if evict_only {
                "Evict local copy of "@ + dec(count as nat) + " items ("@ + human_size_spec(bytes as nat)
                    + ")?\n\nFiles stay in iCloud \u{2014} re-download from Finder anytime.\n\n[y] Yes  [n] No"@
            } else if permanent {
                "Permanently delete "@ + dec(count as nat) + " items ("@ + human_size_spec(bytes as nat)
                    + ")?\n\nThis cannot be undone.\n\n[y] Yes  [n] No"@
            } else {
                "Move "@ + dec(count as nat) + " items ("@ + human_size_spec(bytes as nat)
                    + ") to Trash?\n\nUse [D] to delete forever instead.\n\n[y] Yes  [n] No"@
            }
        },
        Modal::CleanProgress { done, total, freed } => {
            "Progress: "@ + dec(done as nat) + "/"@ + dec(total as nat) + "\nFreed so far: "@
                + human_size_spec(freed as nat) + "\n\nPlease wait\u{2026}"@
        },
        Modal::CleanDone { freed, failures } => {
            "Freed "@ + human_size_spec(freed as nat) + "."@ + (if failures@.len() == 0 {
                Seq::<char>::empty()
            } else {
                "\n\n"@ + dec(failures@.len()) + " errors:\n"@ + failure_lines(
                    failures@.take(
                        if failures@.len() < 5 {
                            failures@.len() as int
                        } else {
                            5
                        },
                    ),
                )
            }) + "\n[Enter] Close"@
        },
        Modal::Fda => "Some paths require Full Disk Access.\n\n1. Open System Settings \u{2192} Privacy & Security\n2. Full Disk Access \u{2192} add Terminal (or mac-cleaner)\n\n[o] Open Settings  [n] Continue without"@,
        Modal::DockerStart => "Docker is not running.\nStart Docker to reclaim build cache and images?\n\n[y] Start Docker  [n] Skip"@,
        _ => Seq::empty(),
    }
}

pub open spec fn modal_title_spec(m: Modal) -> Seq<char> {
    match m {
        Modal::ConfirmClean { .. } => "Confirm clean"@,
        Modal::CleanProgress { .. } => "Cleaning\u{2026}"@,
        Modal::CleanDone { .. } => "Done"@,
        Modal::Fda => "Full Disk Access"@,
        Modal::DockerStart => "Docker"@,
        Modal::Help => " Help "@,
        Modal::Closed => ""@,
    }
}

fn push_size(s: &mut String, b: u64)
    ensures
        final(s)@ == old(s)@ + human_size_spec(b as nat),
{
    let h = human_size(b);
    s.append(h.as_str());
}

/// The title of a modal.
pub fn modal_title(m: &Modal) -> (r: &'static str)
    ensures
        r@ == modal_title_spec(*m),
{
    match m {
        Modal::ConfirmClean { .. } => "Confirm clean",
        Modal::CleanProgress { .. } => "Cleaning\u{2026}",
        Modal::CleanDone { .. } => "Done",
        Modal::Fda => "Full Disk Access",
        Modal::DockerStart => "Docker",
        Modal::Help => " Help ",
        Modal::Closed => "",
    }
}

/// The text shown inside a modal.
pub fn modal_body(m: &Modal) -> (r: String)
    ensures
        r@ == modal_body_spec(*m),
{
    let mut s = String::new();
    match m {
        Modal::ConfirmClean { count, bytes, permanent, empty_trash, evict_only } => {
            if *empty_trash {
                push_str(&mut s, "Permanently empty Trash (");
                push_size(&mut s, *bytes);
                push_str(&mut s, ")?\n\nThis cannot be undone.\n\n[y] Yes  [n] No");
            } else if *evict_only {
                push_str(&mut s, "Evict local copy of ");
                push_decimal(&mut s, *count as u64);
                push_str(&mut s, " items (");
                push_size(&mut s, *bytes);
                push_str(
                    &mut s,
                    ")?\n\nFiles stay in iCloud \u{2014} re-download from Finder anytime.\n\n[y] Yes  [n] No",
                );
            } else if *permanent {
                push_str(&mut s, "Permanently delete ");
                push_decimal(&mut s, *count as u64);
                push_str(&mut s, " items (");
                push_size(&mut s, *bytes);
                push_str(&mut s, ")?\n\nThis cannot be undone.\n\n[y] Yes  [n] No");
            } else {
                push_str(&mut s, "Move ");
                push_decimal(&mut s, *count as u64);
                push_str(&mut s, " items (");
                push_size(&mut s, *bytes);
                push_str(&mut s, ") to Trash?\n\nUse [D] to delete forever instead.\n\n[y] Yes  [n] No");
            }
        },
        Modal::CleanProgress { done, total, freed } => {
            push_str(&mut s, "Progress: ");
            push_decimal(&mut s, *done as u64);
            push_str(&mut s, "/");
            push_decimal(&mut s, *total as u64);
            push_str(&mut s, "\nFreed so far: ");
            push_size(&mut s, *freed);
            push_str(&mut s, "\n\nPlease wait\u{2026}");
        },
        Modal::CleanDone { freed, failures } => {
            push_str(&mut s, "Freed ");
            push_size(&mut s, *freed);
            push_str(&mut s, ".");
            let ghost base = s@;
            if failures.len() > 0 {
                push_str(&mut s, "\n\n");
                push_decimal(&mut s, failures.len() as u64);
                push_str(&mut s, " errors:\n");
                let ghost head = s@;
                let n: usize = if failures.len() < 5 {
                    failures.len()
                } else {
                    5
                };
                for i in 0..n
                    invariant
                        n <= failures@.len(),
                        s@ == head + failure_lines(failures@.take(i as int)),
                {
                    assert(failures@.take(i + 1).drop_last() == failures@.take(i as int));
                    push_str(&mut s, "\u{2022} ");
                    push_str(&mut s, failures[i].as_str());
                    push_str(&mut s, "\n");
                }
            }
            push_str(&mut s, "\n[Enter] Close");
        },
        Modal::Fda => {
            push_str(
                &mut s,
                "Some paths require Full Disk Access.\n\n1. Open System Settings \u{2192} Privacy & Security\n2. Full Disk Access \u{2192} add Terminal (or mac-cleaner)\n\n[o] Open Settings  [n] Continue without",
            );
        },
        Modal::DockerStart => {
            push_str(
                &mut s,
                "Docker is not running.\nStart Docker to reclaim build cache and images?\n\n[y] Start Docker  [n] Skip",
            );
        },
        _ => {},
    }
    s
}

/// One line of the help overlay.
#[derive(Debug, Clone, Copy, PartialEq, Eq)]
pub enum HelpLine {
    Blank,
    /// A section heading.
    Section(&'static str),
    /// A key (padded to the key column) and what it does.
    Entry(&'static str, &'static str),
    /// A risk tier (padded to the key column) and what it means.
    Tier(SafetyTier, &'static str),
    /// A dimmed note.
    Note(&'static str),
}

pub open spec fn help_spec() -> Seq<HelpLine> {
    seq![
        HelpLine::Section("Navigate"),
        HelpLine::Entry("Tab / Shift+Tab", "next / previous view \u{2014} Dashboard first"),
        HelpLine::Entry("\u{2191} \u{2193}  or  j k", "move between rows"),
        HelpLine::Blank,
        HelpLine::Section("Select"),
        HelpLine::Entry("Space", "toggle the highlighted item"),
        HelpLine::Entry("a / A", "select / deselect everything in this category"),
        HelpLine::Entry("s", "select every Safe item across all categories"),
        HelpLine::Entry("i", "invert this category's selection"),
        HelpLine::Entry("n", "clear all selections"),
        HelpLine::Entry("Enter", "Duplicates: choose which copy to keep"),
        HelpLine::Entry("", "Caches: start Docker when prompted"),
        HelpLine::Blank,
        HelpLine::Section("Clean"),
        HelpLine::Entry("d", "move selected items to the Trash (undo with Put Back)"),
        HelpLine::Entry("D", "delete selected items forever \u{2014} cannot be undone"),
        HelpLine::Entry("r", "rescan (do this after cleaning)"),
        HelpLine::Blank,
        HelpLine::Section("Risk colors"),
        HelpLine::Tier(SafetyTier::Safe, "regenerable junk \u{2014} selected automatically"),
        HelpLine::Tier(SafetyTier::Moderate, "review first \u{2014} may cost a rebuild or re-download"),
        HelpLine::Tier(SafetyTier::Risky, "user data or duplicate keeper \u{2014} never auto-selected"),
        HelpLine::Blank,
        HelpLine::Section("Notes"),
        HelpLine::Note("  Trash Bin items are always removed permanently, even with d."),
        HelpLine::Note("  After cleaning with d, rescan and then empty the Trash Bin."),
        HelpLine::Blank,
        HelpLine::Note("  Press any key to close this help \u{b7} q or Esc quits the app"),
    ]
}

/// The lines of the help overlay, in order.
pub fn help_lines() -> (r: Vec<HelpLine>)
    ensures
        r@ == help_spec(),
{
    vec![
        HelpLine::Section("Navigate"),
        HelpLine::Entry("Tab / Shift+Tab", "next / previous view \u{2014} Dashboard first"),
        HelpLine::Entry("\u{2191} \u{2193}  or  j k", "move between rows"),
        HelpLine::Blank,
        HelpLine::Section("Select"),
        HelpLine::Entry("Space", "toggle the highlighted item"),
        HelpLine::Entry("a / A", "select / deselect everything in this category"),
        HelpLine::Entry("s", "select every Safe item across all categories"),
        HelpLine::Entry("i", "invert this category's selection"),
        HelpLine::Entry("n", "clear all selections"),
        HelpLine::Entry("Enter", "Duplicates: choose which copy to keep"),
        HelpLine::Entry("", "Caches: start Docker when prompted"),
        HelpLine::Blank,
        HelpLine::Section("Clean"),
        HelpLine::Entry("d", "move selected items to the Trash (undo with Put Back)"),
        HelpLine::Entry("D", "delete selected items forever \u{2014} cannot be undone"),
        HelpLine::Entry("r", "rescan (do this after cleaning)"),
        HelpLine::Blank,
        HelpLine::Section("Risk colors"),
        HelpLine::Tier(SafetyTier::Safe, "regenerable junk \u{2014} selected automatically"),
        HelpLine::Tier(SafetyTier::Moderate, "review first \u{2014} may cost a rebuild or re-download"),
        HelpLine::Tier(SafetyTier::Risky, "user data or duplicate keeper \u{2014} never auto-selected"),
        HelpLine::Blank,
        HelpLine::Section("Notes"),
        HelpLine::Note("  Trash Bin items are always removed permanently, even with d."),
        HelpLine::Note("  After cleaning with d, rescan and then empty the Trash Bin."),
        HelpLine::Blank,
        HelpLine::Note("  Press any key to close this help \u{b7} q or Esc quits the app"),
    ]
}

/// The key column of a help line: two spaces, then the text left-aligned in
/// eighteen columns.
pub fn key_column(text: &str) -> (r: String)
    ensures
        r@ == "  "@ + pad_right_spec(text@, 18),
{
    let mut s = String::new();
    push_str(&mut s, "  ");
    let p = pad_right(text, 18);
    push_str(&mut s, p.as_str());
    s
}

} // verus!
