//! Developer-artifact scanner decisions: which directories are generated
//! output or installed dependencies, which are never entered, and the notes
//! of the developer-tool locations listed for review.
use vstd::prelude::*;
use crate::config::{Config, DevArtifactsConfig, Matchers, kept_expansions, list_contains, strs};
use crate::fs_util::home_dir;
use crate::model::{Category, ItemAction, SafetyTier, ScanItem, item_is};
use crate::paths::{file_name, file_name_of, relative_text, relative_to};
use crate::text::{chars_of, contains_chars, contains_seq, ends_with_folded, ends_with_folded_chars, lower_ascii_text, string_from};

verus! {

pub open spec fn review_note_spec(p: Seq<char>) -> Seq<char> {
    if contains_seq(p, "DerivedData"@) {
        "Xcode DerivedData \u{2014} rebuildable project cache"@
    } else if contains_seq(p, "Archives"@) {
        "Xcode archives \u{2014} review before deleting"@
    } else if contains_seq(p, "DeviceSupport"@) {
        "Xcode device support files \u{2014} review before deleting"@
    } else if contains_seq(p, "CoreSimulator"@) {
        "CoreSimulator data \u{2014} review before deleting"@
    } else {
        "developer tool artifact \u{2014} review before deleting"@
    }
}

/// The note of a developer-tool location listed for review.
pub fn review_root_note(path: &str) -> (r: &'static str)
    ensures
        r@ == review_note_spec(path@),
{
    let p = chars_of(path);
    if contains_chars(&p, &chars_of("DerivedData")) {
        "Xcode DerivedData \u{2014} rebuildable project cache"
    } else if contains_chars(&p, &chars_of("Archives")) {
        "Xcode archives \u{2014} review before deleting"
    } else if contains_chars(&p, &chars_of("DeviceSupport")) {
        "Xcode device support files \u{2014} review before deleting"
    } else if contains_chars(&p, &chars_of("CoreSimulator")) {
        "CoreSimulator data \u{2014} review before deleting"
    } else {
        "developer tool artifact \u{2014} review before deleting"
    }
}

/// A directory name listed as generated build output.
pub fn is_artifact_dir(cfg: &DevArtifactsConfig, name: &str) -> (r: bool)
    ensures
        r == strs(cfg.artifact_dir_names@).contains(name@),
{
    list_contains(&cfg.artifact_dir_names, &chars_of(name))
}

/// A directory name listed as installed dependencies.
pub fn is_dependency_dir(cfg: &DevArtifactsConfig, name: &str) -> (r: bool)
    ensures
        r == strs(cfg.dependency_dir_names@).contains(name@),
{
    list_contains(&cfg.dependency_dir_names, &chars_of(name))
}

/// Bundles and photo libraries are never entered.
pub open spec fn bundle_name(n: Seq<char>) -> bool {
    ||| ends_with_folded(n, ".app"@)
    ||| ends_with_folded(n, ".framework"@)
    ||| ends_with_folded(n, ".bundle"@)
    ||| ends_with_folded(n, ".photoslibrary"@)
}

pub open spec fn skip_dir_spec(m: Matchers, p: Seq<char>) -> bool {
    m.protects(p) || match file_name_of(p) {
        Some(n) => bundle_name(n),
        None => false,
    }
}

fn ends_folded(n: &Vec<char>, suffix: &str) -> (r: bool)
    requires
        lower_ascii_text(suffix@),
    ensures
        r == ends_with_folded(n@, suffix@),
{
    ends_with_folded_chars(n, &chars_of(suffix))
}

/// Protected paths, app and framework bundles and photo libraries are pruned.
pub fn should_skip_dir(m: &Matchers, path: &str) -> (r: bool)
    ensures
        r == skip_dir_spec(*m, path@),
{
    if m.is_protected(path) {
        return true;
    }
    proof {
        reveal_strlit(".app");
        reveal_strlit(".framework");
        reveal_strlit(".bundle");
        reveal_strlit(".photoslibrary");
    }
    match file_name(&chars_of(path)) {
        None => false,
        Some(n) => ends_folded(&n, ".app") || ends_folded(&n, ".framework") || ends_folded(&n, ".bundle")
            || ends_folded(&n, ".photoslibrary"),
    }
}

/// What the walk does with a directory.
#[derive(Debug, Clone, Copy, PartialEq, Eq, Structural)]
pub enum DirVerdict {
    /// Walk into it.
    Descend,
    /// Neither list it nor walk into it.
    Prune,
    /// List it as generated build output; do not walk into it.
    Artifact,
    /// List it as installed dependencies; do not walk into it.
    Dependency,
}

pub open spec fn dir_verdict_spec(cfg: Config, m: Matchers, path: Seq<char>, name: Seq<char>) -> DirVerdict {
    if skip_dir_spec(m, path) {
        DirVerdict::Prune
    } else if strs(cfg.dev_artifacts.artifact_dir_names@).contains(name) {
        DirVerdict::Artifact
    } else if strs(cfg.dev_artifacts.dependency_dir_names@).contains(name) {
        DirVerdict::Dependency
    } else {
        DirVerdict::Descend
    }
}

/// Classifies a directory met during the walk of a project root.
pub fn classify_dir(cfg: &Config, m: &Matchers, path: &str, name: &str) -> (r: DirVerdict)
    ensures
        r == dir_verdict_spec(*cfg, *m, path@, name@),
{
    if should_skip_dir(m, path) {
        DirVerdict::Prune
    } else if is_artifact_dir(&cfg.dev_artifacts, name) {
        DirVerdict::Artifact
    } else if is_dependency_dir(&cfg.dev_artifacts, name) {
        DirVerdict::Dependency
    } else {
        DirVerdict::Descend
    }
}

/// The note of a listed directory.
pub fn candidate_note(v: DirVerdict) -> (r: &'static str)
    ensures
        v == DirVerdict::Artifact ==> r@ == "generated build artifact"@,
        v != DirVerdict::Artifact ==> r@ == "dependency folder \u{2014} reinstall may be needed"@,
{
    if v == DirVerdict::Artifact {
        "generated build artifact"
    } else {
        "dependency folder \u{2014} reinstall may be needed"
    }
}

/// The paths of `ps` that `m` does not protect, in order.
pub open spec fn unprotected(m: Matchers, ps: Seq<Seq<char>>) -> Seq<Seq<char>>
    decreases ps.len(),
{
    if ps.len() == 0 {
        Seq::empty()
    } else {
        let r = unprotected(m, ps.drop_last());
        if m.protects(ps.last()) {
            r
        } else {
            r.push(ps.last())
        }
    }
}

/// The paths of a list of review candidates.
pub open spec fn candidate_paths(r: Seq<(String, &'static str)>) -> Seq<Seq<char>> {
    r.map_values(|x: (String, &'static str)| x.0@)
}

/// The review locations to list: every configured one that exists on disk
/// (with `~` expanded) and is not protected, in the configured order, each
/// with its note.
pub fn review_candidates(cfg: &Config, m: &Matchers) -> (r: Vec<(String, &'static str)>)
    ensures
        exists|h: Seq<char>, flags: Seq<bool>|
            flags.len() == cfg.dev_artifacts.review_roots@.len() && candidate_paths(r@) == unprotected(
                *m,
                kept_expansions(strs(cfg.dev_artifacts.review_roots@), h, flags),
            ),
        forall|i: int| 0 <= i < r@.len() ==> !m.protects((#[trigger] r@[i]).0@) && r@[i].1@ == review_note_spec(r@[i].0@),
{
    let roots = cfg.dev_artifact_review_roots();
    let ghost rv = strs(roots@);
    let mut r: Vec<(String, &'static str)> = Vec::new();
    assert(candidate_paths(r@) =~= unprotected(*m, rv.take(0)));
    for i in 0..roots.len()
        invariant
            rv == strs(roots@),
            candidate_paths(r@) == unprotected(*m, rv.take(i as int)),
            forall|k: int| 0 <= k < r@.len() ==> !m.protects((#[trigger] r@[k]).0@) && r@[k].1@ == review_note_spec(r@[k].0@),
    {
        let ghost before = r@;
        assert(rv.take(i + 1).drop_last() =~= rv.take(i as int));
        assert(rv.take(i + 1).last() == roots@[i as int]@);
        if !m.is_protected(roots[i].as_str()) {
            let note = review_root_note(roots[i].as_str());
            r.push((roots[i].clone(), note));
            assert(candidate_paths(r@) =~= candidate_paths(before).push(roots@[i as int]@));
        }
    }
    assert(rv.take(roots@.len() as int) =~= rv);
    r
}

/// A developer directory's label: its path relative to the home directory.
pub fn display_label_in(path: &str, home: &str) -> (r: String)
    ensures
        r@ == relative_to(path@, home@),
{
    string_from(&relative_text(&chars_of(path), &chars_of(home)))
}

pub fn display_label(path: &str) -> (r: String)
    ensures
        exists|home: Seq<char>| r@ == relative_to(path@, home),
{
    let home = home_dir();
    display_label_in(path, home.as_str())
}

/// The item for a listed directory; `None` when it occupies nothing.
pub fn dev_item(path: String, label: String, bytes: u64, note: &str) -> (r: Option<ScanItem>)
    ensures
        bytes == 0 ==> r is None,
        bytes > 0 ==> (r matches Some(i) && item_is(i, path@, label@, bytes, SafetyTier::Moderate,
            Category::DevArtifacts, note@, 0, ItemAction::Delete)),
{
    if bytes == 0 {
        return None;
    }
    Some(ScanItem::new(path, label, bytes, SafetyTier::Moderate, Category::DevArtifacts).with_note(note))
}

} // verus!
