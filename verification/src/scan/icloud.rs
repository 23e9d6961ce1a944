//! iCloud scanner decisions: find locally-materialized files that can be
//! evicted.
//!
//! `brctl evict` works on individual iCloud documents, not binaries inside
//! `.app` bundles, `node_modules`, or framework `Versions/` trees.
use vstd::prelude::*;
use crate::model::{Category, ItemAction, SafetyTier, ScanItem, item_is};
use crate::paths::{comps, components, file_name, file_name_of, join_comps, join_components, join_path, lemma_map_comps, relative_text, relative_to, strip_comps};
use crate::scan::InodeSet;
use crate::text::{chars_of, contains_chars, contains_seq, ends_with, ends_with_chars, split_chars, split_on, string_from, push_chars, push_str, push_char};

verus! {

/// Files smaller than this are not worth evicting.
pub const MIN_BYTES: u64 = 10 * 1024 * 1024;

/// Deepest folder level walked below the iCloud root.
pub const MAX_DEPTH: usize = 24;

/// Directory names skipped during traversal.
pub open spec fn skip_dir_names() -> Seq<Seq<char>> {
    seq![
        "node_modules"@,
        ".git"@,
        "__pycache__"@,
        "target"@,
        ".npm"@,
        "Pods"@,
        "DerivedData"@,
        "build"@,
        ".venv"@,
        "venv"@,
        ".tox"@,
        ".gradle"@,
        "out"@,
    ]
}

pub open spec fn skip_dir_spec(name: Seq<char>) -> bool {
    ||| skip_dir_names().contains(name)
    ||| ends_with(name, ".app"@)
    ||| ends_with(name, ".framework"@)
    ||| ends_with(name, ".bundle"@)
    ||| ends_with(name, ".plugin"@)
    ||| ends_with(name, ".xcodeproj"@)
    ||| ends_with(name, ".xcworkspace"@)
}

fn ends(n: &Vec<char>, s: &str) -> (r: bool)
    ensures
        r == ends_with(n@, s@),
{
    ends_with_chars(n, &chars_of(s))
}

fn named(n: &str, s: &str) -> (r: bool)
    ensures
        r == (n@ == s@),
{
    crate::model::str_equal(n, s)
}

/// Development folders and bundles are not walked.
pub fn should_skip_dir(name: &str) -> (r: bool)
    ensures
        r == skip_dir_spec(name@),
{
    let listed = named(name, "node_modules") || named(name, ".git") || named(name, "__pycache__") || named(
        name,
        "target",
    ) || named(name, ".npm") || named(name, "Pods") || named(name, "DerivedData") || named(name, "build") || named(
        name,
        ".venv",
    ) || named(name, "venv") || named(name, ".tox") || named(name, ".gradle") || named(name, "out");
    proof {
        let l = skip_dir_names();
        if listed {
            assert(l.contains(name@)) by {
                if name@ == "node_modules"@ { assert(l[0] == name@); }
                else if name@ == ".git"@ { assert(l[1] == name@); }
                else if name@ == "__pycache__"@ { assert(l[2] == name@); }
                else if name@ == "target"@ { assert(l[3] == name@); }
                else if name@ == ".npm"@ { assert(l[4] == name@); }
                else if name@ == "Pods"@ { assert(l[5] == name@); }
                else if name@ == "DerivedData"@ { assert(l[6] == name@); }
                else if name@ == "build"@ { assert(l[7] == name@); }
                else if name@ == ".venv"@ { assert(l[8] == name@); }
                else if name@ == "venv"@ { assert(l[9] == name@); }
                else if name@ == ".tox"@ { assert(l[10] == name@); }
                else if name@ == ".gradle"@ { assert(l[11] == name@); }
                else { assert(l[12] == name@); }
            }
        } else {
            assert(!l.contains(name@)) by {
                if l.contains(name@) {
                    let k = choose|k: int| 0 <= k < l.len() && l[k] == name@;
                    assert(0 <= k < 13);
                }
            }
        }
    }
    let n = chars_of(name);
    listed || ends(&n, ".app") || ends(&n, ".framework") || ends(&n, ".bundle") || ends(&n, ".plugin") || ends(
        &n,
        ".xcodeproj",
    ) || ends(&n, ".xcworkspace")
}

/// Text with every backslash turned into a slash.
pub open spec fn slashes(s: Seq<char>) -> Seq<char> {
    s.map_values(|c: char| if c == '\\' { '/' } else { c })
}

/// A file inside `node_modules`, an app bundle's `Contents`, a framework's
/// `Versions` or `Frameworks`, or any `.app` or `.framework` folder below the
/// root.
pub open spec fn skip_file_spec(path: Seq<char>, root: Seq<char>) -> bool {
    let rel = slashes(relative_to(path, root));
    ||| contains_seq(rel, "/node_modules/"@)
    ||| contains_seq(rel, "/Contents/"@)
    ||| contains_seq(rel, "/Versions/"@)
    ||| contains_seq(rel, "/Frameworks/"@)
    ||| exists|k: int|
        0 <= k < split_on(rel, '/').len() && (ends_with(#[trigger] split_on(rel, '/')[k], ".app"@) || ends_with(
            split_on(rel, '/')[k],
            ".framework"@,
        ))
}

/// Whether a file below the iCloud root `root` is not a document to evict.
pub fn should_skip_file_path(path: &str, root: &str) -> (r: bool)
    ensures
        r == skip_file_spec(path@, root@),
{
    let rel0 = relative_text(&chars_of(path), &chars_of(root));
    let mut rel: Vec<char> = Vec::new();
    for i in 0..rel0.len()
        invariant
            rel0@ == relative_to(path@, root@),
            rel@ == slashes(rel0@.take(i as int)),
    {
        rel.push(if rel0[i] == '\\' {
            '/'
        } else {
            rel0[i]
        });
        assert(slashes(rel0@.take(i + 1)) =~= slashes(rel0@.take(i as int)).push(
            if rel0@[i as int] == '\\' {
                '/'
            } else {
                rel0@[i as int]
            },
        ));
    }
    assert(rel0@.take(rel0@.len() as int) == rel0@);
    if contains_chars(&rel, &chars_of("/node_modules/")) || contains_chars(&rel, &chars_of("/Contents/"))
        || contains_chars(&rel, &chars_of("/Versions/")) || contains_chars(&rel, &chars_of("/Frameworks/")) {
        return true;
    }
    let parts = split_chars(&rel, '/');
    for k in 0..parts.len()
        invariant
            rel@ == slashes(relative_to(path@, root@)),
            parts@.len() == split_on(rel@, '/').len(),
            forall|i: int| 0 <= i < parts@.len() ==> #[trigger] parts@[i]@ == split_on(rel@, '/')[i],
            forall|i: int|
                0 <= i < k ==> !(ends_with(#[trigger] split_on(rel@, '/')[i], ".app"@) || ends_with(
                    split_on(rel@, '/')[i],
                    ".framework"@,
                )),
    {
        if ends(&parts[k], ".app") || ends(&parts[k], ".framework") {
            assert(ends_with(split_on(rel@, '/')[k as int], ".app"@) || ends_with(
                split_on(rel@, '/')[k as int],
                ".framework"@,
            ));
            return true;
        }
    }
    false
}

/// An item's label: its path below the iCloud root, or its file name when it
/// is not below the root.
pub open spec fn icloud_label_spec(root: Seq<char>, path: Seq<char>) -> Seq<char> {
    match strip_comps(path, root) {
        Some(rest) => join_comps(rest),
        None => match file_name_of(path) {
            Some(n) => n,
            None => Seq::empty(),
        },
    }
}

pub fn display_label(root: &str, path: &str) -> (r: String)
    ensures
        r@ == icloud_label_spec(root@, path@),
{
    let p = chars_of(path);
    if crate::paths::starts_with_path(&p, &chars_of(root)) {
        string_from(&relative_text(&p, &chars_of(root)))
    } else {
        match file_name(&p) {
            Some(n) => string_from(&n),
            None => String::new(),
        }
    }
}

/// The path of the placeholder iCloud leaves when a file is evicted:
/// `.<name>.icloud` beside it.
pub open spec fn placeholder_spec(path: Seq<char>, name: Seq<char>) -> Seq<char> {
    join_path(join_comps(comps(path).drop_last()), "."@ + name + ".icloud"@)
}

pub fn placeholder_path(path: &str, name: &str) -> (r: String)
    requires
        comps(path@).len() > 0,
    ensures
        r@ == placeholder_spec(path@, name@),
{
    let cs = components(&chars_of(path));
    proof {
        lemma_map_comps(cs@, comps(path@));
    }
    let mut parent: Vec<Vec<char>> = Vec::new();
    for i in 0..cs.len() - 1
        invariant
            cs@.len() == comps(path@).len(),
            cs@.len() > 0,
            forall|k: int| 0 <= k < cs@.len() ==> #[trigger] cs@[k]@ == comps(path@)[k],
            parent@.len() == i,
            forall|k: int| 0 <= k < i ==> #[trigger] parent@[k]@ == comps(path@)[k],
    {
        parent.push(cs[i].clone());
    }
    proof {
        lemma_map_comps(parent@, comps(path@).drop_last());
    }
    let base = string_from(&join_components(&parent));
    let mut leaf = String::new();
    push_char(&mut leaf, '.');
    push_str(&mut leaf, name);
    push_str(&mut leaf, ".icloud");
    assert(leaf@ == "."@ + name@ + ".icloud"@) by {
        reveal_strlit(".");
    }
    crate::paths::join(base.as_str(), leaf.as_str())
}

/// The kind of a directory entry, as its metadata tells.
#[derive(Debug, Clone, Copy, PartialEq, Eq, Structural)]
pub enum EntryKind {
    Symlink,
    Dir,
    File,
    Other,
}

/// What the walk does with an entry.
#[derive(Debug, Clone, Copy, PartialEq, Eq, Structural)]
pub enum EntryVerdict {
    Skip,
    Descend,
    /// A regular file that may be listed (see [`IcloudWalk::consider`]).
    Consider,
}

/// Hidden entries and placeholders are skipped, as are symbolic links and
/// anything that is neither a folder nor a file; skipped folders are not
/// walked.
pub open spec fn entry_verdict_spec(name: Seq<char>, kind: EntryKind) -> EntryVerdict {
    if name.len() > 0 && name[0] == '.' {
        EntryVerdict::Skip
    } else if ends_with(name, ".icloud"@) {
        EntryVerdict::Skip
    } else {
        match kind {
            EntryKind::Symlink => EntryVerdict::Skip,
            EntryKind::Dir => if skip_dir_spec(name) {
                EntryVerdict::Skip
            } else {
                EntryVerdict::Descend
            },
            EntryKind::File => EntryVerdict::Consider,
            EntryKind::Other => EntryVerdict::Skip,
        }
    }
}

pub fn classify_entry(name: &str, kind: EntryKind) -> (r: EntryVerdict)
    ensures
        r == entry_verdict_spec(name@, kind),
{
    let n = chars_of(name);
    if n.len() > 0 && n[0] == '.' {
        return EntryVerdict::Skip;
    }
    if ends(&n, ".icloud") {
        return EntryVerdict::Skip;
    }
    match kind {
        EntryKind::Symlink => EntryVerdict::Skip,
        EntryKind::Dir => if should_skip_dir(name) {
            EntryVerdict::Skip
        } else {
            EntryVerdict::Descend
        },
        EntryKind::File => EntryVerdict::Consider,
        EntryKind::Other => EntryVerdict::Skip,
    }
}

/// The files found so far and the inodes already listed.
pub struct IcloudWalk {
    pub items: Vec<ScanItem>,
    pub inodes: InodeSet,
}

impl IcloudWalk {
    pub fn new() -> (r: Self)
        ensures
            r.items@.len() == 0,
            r.inodes.counted() == Set::<(u64, u64)>::empty(),
    {
        IcloudWalk { items: Vec::new(), inodes: InodeSet::new() }
    }

    /// Considers a regular file below `root`: listed for eviction unless it
    /// is inside a bundle or dependency tree, smaller than [`MIN_BYTES`],
    /// already evicted (its placeholder exists), or a hard link to a file
    /// already listed.
    pub fn consider(&mut self, path: String, root: &str, bytes: u64, placeholder_exists: bool, inode: (u64, u64)) -> (r: bool)
        ensures
            r == (!skip_file_spec(path@, root@) && bytes >= MIN_BYTES && !placeholder_exists
                && !old(self).inodes.counted().contains(inode)),
            !skip_file_spec(path@, root@) && bytes >= MIN_BYTES && !placeholder_exists ==> final(self).inodes.counted()
                == (if old(self).inodes.counted().contains(inode) {
                old(self).inodes.counted()
            } else {
                old(self).inodes.counted().insert(inode)
            }),
            !r ==> final(self).items == old(self).items,
            r ==> final(self).items@.drop_last() == old(self).items@ && final(self).items@.len() == old(self).items@.len() + 1
                && item_is(final(self).items@.last(), path@, icloud_label_spec(root@, path@), bytes,
                SafetyTier::Moderate, Category::ICloud, "evict local copy \u{2014} stays in iCloud"@, 0,
                ItemAction::Evict),
    {
        if should_skip_file_path(path.as_str(), root) || bytes < MIN_BYTES || placeholder_exists {
            return false;
        }
        if !self.inodes.insert(inode) {
            return false;
        }
        let label = display_label(root, path.as_str());
        let item = ScanItem::new(path, label, bytes, SafetyTier::Moderate, Category::ICloud).with_note(
            "evict local copy \u{2014} stays in iCloud",
        ).with_action(ItemAction::Evict);
        self.items.push(item);
        assert(self.items@.drop_last() == old(self).items@);
        true
    }
}

} // verus!
