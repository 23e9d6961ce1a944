//! Configuration defaults and the compiled matchers used by scanners.
//!
//! `Config` stores user-facing values. `Matchers` stores the compiled glob sets
//! and name lists derived from it. Reading and writing the TOML file is done by
//! the application around this library.
use vstd::prelude::*;
use crate::text::{owned, chars_of, starts_with_chars, starts_with};
use crate::model::{chars_equal, str_equal};
use crate::paths::{comps, components};
use crate::fs_util::{expand_tilde_in, expand_tilde_spec, home_dir};

verus! {

// ---------------------------------------------------------------------------
// globset: calls whose contracts are assumed, not proved
// ---------------------------------------------------------------------------

#[verifier::external_type_specification]
#[verifier::external_body]
pub struct ExGlob(globset::Glob);

#[verifier::external_type_specification]
#[verifier::external_body]
pub struct ExGlobSet(globset::GlobSet);

#[verifier::external_type_specification]
#[verifier::external_body]
pub struct ExGlobSetBuilder(globset::GlobSetBuilder);

#[verifier::external_type_specification]
#[verifier::external_body]
pub struct ExGlobError(globset::Error);

/// Whether `globset::Glob::new` accepts the pattern.
pub uninterp spec fn glob_valid(pattern: Seq<char>) -> bool;

/// The pattern text a `Glob` was built from (`Glob::glob`).
pub uninterp spec fn glob_text(g: globset::Glob) -> Seq<char>;

/// The patterns added to a `GlobSetBuilder`, in order.
pub uninterp spec fn builder_patterns(b: globset::GlobSetBuilder) -> Seq<Seq<char>>;

/// The patterns a `GlobSet` was built from, in order.
pub uninterp spec fn set_patterns(s: globset::GlobSet) -> Seq<Seq<char>>;

/// Whether `GlobSetBuilder::build` succeeds on these patterns.
pub uninterp spec fn globset_builds(patterns: Seq<Seq<char>>) -> bool;

/// What `GlobSet::is_match` answers for a set built from `patterns` and the
/// candidate `name`.
pub uninterp spec fn globset_matches(patterns: Seq<Seq<char>>, name: Seq<char>) -> bool;

/// `globset::Glob::new`: succeeds exactly on valid patterns, and the glob keeps
/// its pattern text.
#[verifier::external_body]
fn glob_new(pattern: &str) -> (r: Result<globset::Glob, globset::Error>)
    ensures
        r is Ok <==> glob_valid(pattern@),
        r matches Ok(g) ==> glob_text(g) == pattern@,
{
    globset::Glob::new(pattern)
}

/// `globset::GlobSetBuilder::new`: a builder with no patterns.
#[verifier::external_body]
fn builder_new() -> (r: globset::GlobSetBuilder)
    ensures
        builder_patterns(r) == Seq::<Seq<char>>::empty(),
{
    globset::GlobSetBuilder::new()
}

/// `globset::GlobSetBuilder::add`: appends the glob's pattern.
#[verifier::external_body]
fn builder_add(b: &mut globset::GlobSetBuilder, g: globset::Glob)
    ensures
        builder_patterns(*final(b)) == builder_patterns(*old(b)).push(glob_text(g)),
{
    b.add(g);
}

/// `globset::GlobSetBuilder::build`: a set of exactly the added patterns,
/// when the patterns compile.
#[verifier::external_body]
fn builder_build(b: &globset::GlobSetBuilder) -> (r: Result<globset::GlobSet, globset::Error>)
    ensures
        r is Ok <==> globset_builds(builder_patterns(*b)),
        r matches Ok(s) ==> set_patterns(s) == builder_patterns(*b),
{
    b.build()
}

/// `globset::GlobSet::is_match` on a bare name.
#[verifier::external_body]
fn set_is_match(s: &globset::GlobSet, name: &str) -> (r: bool)
    ensures
        r == globset_matches(set_patterns(*s), name@),
{
    s.is_match(name)
}

/// Whether a path exists on disk (`Path::exists`). Nothing is promised: the
/// answer depends on the filesystem.
#[verifier::external_body]
fn path_exists(p: &str) -> bool {
    std::path::Path::new(p).exists()
}

// ---------------------------------------------------------------------------
// Configuration
// ---------------------------------------------------------------------------

#[derive(Debug, Clone, Copy, PartialEq, Eq, Structural)]
pub enum DeleteMode {
    Trash,
    Permanent,
}

impl Default for DeleteMode {
    fn default() -> (r: Self)
        ensures
            r == DeleteMode::Trash,
    {
        DeleteMode::Trash
    }
}

/// The text of each string in a list.
pub open spec fn strs(v: Seq<String>) -> Seq<Seq<char>> {
    v.map_values(|s: String| s@)
}

/// Owned copies of string literals.
pub fn strings(lits: Vec<&str>) -> (r: Vec<String>)
    ensures
        strs(r@) == lits@.map_values(|s: &str| s@),
{
    let mut r: Vec<String> = Vec::new();
    for i in 0..lits.len()
        invariant
            r@.len() == i,
            forall|k: int| 0 <= k < i ==> #[trigger] r@[k]@ == lits@[k]@,
    {
        r.push(owned(lits[i]));
    }
    assert(strs(r@) =~= lits@.map_values(|s: &str| s@));
    r
}

#[derive(Debug, Clone)]
pub struct CacheConfig {
    /// Roots walked recursively for cache-signature directories.
    pub roots: Vec<String>,
    /// Directory-name signatures that mark a whole subtree as one cache item.
    pub signatures: Vec<String>,
}

pub open spec fn default_cache_roots() -> Seq<Seq<char>> {
    seq![
        "~/Library/Caches"@,
        "~/Library/Application Support"@,
        "~/Library/Containers"@,
        "~/Library/Group Containers"@,
        "~/.cache"@,
        "~/.npm/_cacache"@,
        "~/.cargo/registry/cache"@,
        "~/.gradle/caches"@,
        "~/.cocoapods"@,
        "~/Library/Developer/Xcode/DerivedData"@,
        "~/Library/Developer/Xcode/iOS DeviceSupport"@,
    ]
}

pub open spec fn default_cache_signatures() -> Seq<Seq<char>> {
    seq![
        "Cache"@,
        "Caches"@,
        ".cache"@,
        "Code Cache"@,
        "GPUCache"@,
        "GPU Cache"@,
        "CachedData"@,
        "CachedExtensionVSIXs"@,
        "ShaderCache"@,
        "DawnCache"@,
        "DawnGraphiteCache"@,
        "DawnWebGPUCache"@,
        "GraphiteDawnCache"@,
        "Cache_Data"@,
        "component_crx_cache"@,
        "CacheStorage"@,
        "blob_storage"@,
        "Crashpad"@,
        "*.ShipIt"@,
        "ShipIt"@,
    ]
}

impl Default for CacheConfig {
    fn default() -> (r: Self)
        ensures
            strs(r.roots@) == default_cache_roots(),
            strs(r.signatures@) == default_cache_signatures(),
    {
        CacheConfig {
            roots: strings(
                vec![
                    "~/Library/Caches",
                    "~/Library/Application Support",
                    "~/Library/Containers",
                    "~/Library/Group Containers",
                    "~/.cache",
                    "~/.npm/_cacache",
                    "~/.cargo/registry/cache",
                    "~/.gradle/caches",
                    "~/.cocoapods",
                    "~/Library/Developer/Xcode/DerivedData",
                    "~/Library/Developer/Xcode/iOS DeviceSupport",
                ],
            ),
            signatures: strings(
                vec![
                    "Cache",
                    "Caches",
                    ".cache",
                    "Code Cache",
                    "GPUCache",
                    "GPU Cache",
                    "CachedData",
                    "CachedExtensionVSIXs",
                    "ShaderCache",
                    "DawnCache",
                    "DawnGraphiteCache",
                    "DawnWebGPUCache",
                    "GraphiteDawnCache",
                    "Cache_Data",
                    "component_crx_cache",
                    "CacheStorage",
                    "blob_storage",
                    "Crashpad",
                    "*.ShipIt",
                    "ShipIt",
                ],
            ),
        }
    }
}

#[derive(Debug, Clone)]
pub struct LogsConfig {
    pub age_days: u32,
    pub roots: Vec<String>,
    /// Directory-name signatures (e.g. `logs`, `log`).
    pub dir_signatures: Vec<String>,
    /// File-name globs (e.g. `*.log`, `npm-debug.log*`).
    pub file_signatures: Vec<String>,
    /// Prefer truncating still-open logs over deleting them.
    pub truncate_active: bool,
}

impl Default for LogsConfig {
    fn default() -> (r: Self)
        ensures
            r.age_days == 7,
            strs(r.roots@) == seq!["~"@, "~/Library/Logs"@],
            strs(r.dir_signatures@) == seq!["logs"@, "log"@],
            strs(r.file_signatures@) == seq![
                "*.log"@,
                "*.log.*"@,
                "npm-debug.log*"@,
                "*-debug.log"@,
                "crash*.log"@,
            ],
            r.truncate_active,
    {
        LogsConfig {
            age_days: 7,
            roots: strings(vec!["~", "~/Library/Logs"]),
            dir_signatures: strings(vec!["logs", "log"]),
            file_signatures: strings(
                vec!["*.log", "*.log.*", "npm-debug.log*", "*-debug.log", "crash*.log"],
            ),
            truncate_active: true,
        }
    }
}

#[derive(Debug, Clone)]
pub struct DuplicatesConfig {
    pub roots: Vec<String>,
    /// Ignore files smaller than this in duplicate detection.
    pub min_bytes: u64,
}

impl Default for DuplicatesConfig {
    fn default() -> (r: Self)
        ensures
            strs(r.roots@) == seq!["~/Downloads"@, "~/Documents"@, "~/Desktop"@],
            r.min_bytes == 1024 * 1024,
    {
        DuplicatesConfig {
            roots: strings(vec!["~/Downloads", "~/Documents", "~/Desktop"]),
            min_bytes: 1024 * 1024,
        }
    }
}

#[derive(Debug, Clone)]
pub struct LargeConfig {
    pub roots: Vec<String>,
    pub min_bytes: u64,
    /// Installers and archives at least this big are listed once stale.
    pub stale_archive_min_bytes: u64,
    /// Days without access after which an installer or archive is stale.
    pub stale_archive_days: u32,
}

impl Default for LargeConfig {
    fn default() -> (r: Self)
        ensures
            strs(r.roots@) == seq!["~/Downloads"@, "~/Documents"@, "~/Desktop"@, "~/Movies"@],
            r.min_bytes == 100 * 1024 * 1024,
            r.stale_archive_min_bytes == 10 * 1024 * 1024,
            r.stale_archive_days == 30,
    {
        LargeConfig {
            roots: strings(vec!["~/Downloads", "~/Documents", "~/Desktop", "~/Movies"]),
            min_bytes: 100 * 1024 * 1024,
            stale_archive_min_bytes: 10 * 1024 * 1024,
            stale_archive_days: 30,
        }
    }
}

#[derive(Debug, Clone)]
pub struct DevArtifactsConfig {
    /// Project roots walked for generated directories.
    pub roots: Vec<String>,
    /// Developer-tool locations listed as a whole for review.
    pub review_roots: Vec<String>,
    /// Directory names of generated build output.
    pub artifact_dir_names: Vec<String>,
    /// Directory names of installed dependencies.
    pub dependency_dir_names: Vec<String>,
}

pub open spec fn default_dev_review_roots() -> Seq<Seq<char>> {
    seq![
        "~/Library/Developer/Xcode/DerivedData"@,
        "~/Library/Developer/Xcode/Archives"@,
        "~/Library/Developer/Xcode/iOS DeviceSupport"@,
        "~/Library/Developer/CoreSimulator"@,
    ]
}

impl Default for DevArtifactsConfig {
    fn default() -> (r: Self)
        ensures
            strs(r.roots@) == seq!["~/Documents"@, "~/Desktop"@, "~/Developer"@, "~/Projects"@],
            strs(r.review_roots@) == default_dev_review_roots(),
            strs(r.artifact_dir_names@) == seq![
                "target"@,
                ".terraform"@,
                ".dart_tool"@,
                "__pycache__"@,
                ".next"@,
                ".parcel-cache"@,
            ],
            strs(r.dependency_dir_names@) == seq!["node_modules"@, ".venv"@, "Pods"@],
    {
        DevArtifactsConfig {
            roots: strings(vec!["~/Documents", "~/Desktop", "~/Developer", "~/Projects"]),
            review_roots: strings(
                vec![
                    "~/Library/Developer/Xcode/DerivedData",
                    "~/Library/Developer/Xcode/Archives",
                    "~/Library/Developer/Xcode/iOS DeviceSupport",
                    "~/Library/Developer/CoreSimulator",
                ],
            ),
            artifact_dir_names: strings(
                vec!["target", ".terraform", ".dart_tool", "__pycache__", ".next", ".parcel-cache"],
            ),
            dependency_dir_names: strings(vec!["node_modules", ".venv", "Pods"]),
        }
    }
}

#[derive(Debug, Clone)]
pub struct PrivilegeConfig {
    pub auto_elevate: bool,
}

impl Default for PrivilegeConfig {
    fn default() -> (r: Self)
        ensures
            r.auto_elevate,
    {
        PrivilegeConfig { auto_elevate: true }
    }
}

#[derive(Debug, Clone)]
pub struct Config {
    pub cache: CacheConfig,
    pub logs: LogsConfig,
    pub duplicates: DuplicatesConfig,
    pub large: LargeConfig,
    pub dev_artifacts: DevArtifactsConfig,
    pub privilege: PrivilegeConfig,
    /// Directory names skipped during recursive walks.
    pub exclude_dir_names: Vec<String>,
    /// Path components treated as user data.
    pub protected_names: Vec<String>,
    pub delete_mode: DeleteMode,
}

pub open spec fn default_exclude_names() -> Seq<Seq<char>> {
    seq!["node_modules"@, "target"@, ".git"@, "vendor"@, ".venv"@, "venv"@, "Pods"@]
}

pub open spec fn default_protected_names() -> Seq<Seq<char>> {
    seq![
        "User"@,
        "Default"@,
        "Local Storage"@,
        "IndexedDB"@,
        "databases"@,
        "Cookies"@,
        "Login Data"@,
        "Keychains"@,
        ".ssh"@,
        ".gnupg"@,
        "Steam"@,
        "minecraft"@,
        "Photos Library.photoslibrary"@,
        "Mail"@,
    ]
}

impl Default for Config {
    fn default() -> (r: Self)
        ensures
            strs(r.cache.roots@) == default_cache_roots(),
            strs(r.cache.signatures@) == default_cache_signatures(),
            r.logs.age_days == 7,
            strs(r.logs.roots@) == seq!["~"@, "~/Library/Logs"@],
            strs(r.logs.dir_signatures@) == seq!["logs"@, "log"@],
            strs(r.logs.file_signatures@) == seq![
                "*.log"@,
                "*.log.*"@,
                "npm-debug.log*"@,
                "*-debug.log"@,
                "crash*.log"@,
            ],
            r.logs.truncate_active,
            strs(r.duplicates.roots@) == seq!["~/Downloads"@, "~/Documents"@, "~/Desktop"@],
            r.duplicates.min_bytes == 1024 * 1024,
            strs(r.large.roots@) == seq!["~/Downloads"@, "~/Documents"@, "~/Desktop"@, "~/Movies"@],
            r.large.min_bytes == 100 * 1024 * 1024,
            r.large.stale_archive_min_bytes == 10 * 1024 * 1024,
            r.large.stale_archive_days == 30,
            strs(r.dev_artifacts.roots@) == seq!["~/Documents"@, "~/Desktop"@, "~/Developer"@, "~/Projects"@],
            strs(r.dev_artifacts.review_roots@) == default_dev_review_roots(),
            strs(r.dev_artifacts.artifact_dir_names@) == seq![
                "target"@,
                ".terraform"@,
                ".dart_tool"@,
                "__pycache__"@,
                ".next"@,
                ".parcel-cache"@,
            ],
            strs(r.dev_artifacts.dependency_dir_names@) == seq!["node_modules"@, ".venv"@, "Pods"@],
            r.privilege.auto_elevate,
            strs(r.exclude_dir_names@) == default_exclude_names(),
            strs(r.protected_names@) == default_protected_names(),
            r.delete_mode == DeleteMode::Trash,
    {
        Config {
            cache: CacheConfig::default(),
            logs: LogsConfig::default(),
            duplicates: DuplicatesConfig::default(),
            large: LargeConfig::default(),
            dev_artifacts: DevArtifactsConfig::default(),
            privilege: PrivilegeConfig::default(),
            exclude_dir_names: strings(
                vec!["node_modules", "target", ".git", "vendor", ".venv", "venv", "Pods"],
            ),
            protected_names: strings(
                vec![
                    "User",
                    "Default",
                    "Local Storage",
                    "IndexedDB",
                    "databases",
                    "Cookies",
                    "Login Data",
                    "Keychains",
                    ".ssh",
                    ".gnupg",
                    "Steam",
                    "minecraft",
                    "Photos Library.photoslibrary",
                    "Mail",
                ],
            ),
            delete_mode: DeleteMode::Trash,
        }
    }
}

/// The entries of `list` with `~` expanded against `home`, keeping those whose
/// flag is set.
pub open spec fn kept_expansions(list: Seq<Seq<char>>, home: Seq<char>, flags: Seq<bool>) -> Seq<Seq<char>>
    decreases list.len(),
{
    if list.len() == 0 || flags.len() != list.len() {
        Seq::empty()
    } else {
        let r = kept_expansions(list.drop_last(), home, flags.drop_last());
        if flags.last() {
            r.push(expand_tilde_spec(list.last(), home))
        } else {
            r
        }
    }
}

/// The entries of `list` with `~` expanded against `home`, keeping exactly
/// those whose answer in `present` (one per entry, in order) is true.
pub fn keep_present(list: &Vec<String>, home: &str, present: &Vec<bool>) -> (r: Vec<String>)
    requires
        present@.len() == list@.len(),
    ensures
        strs(r@) == kept_expansions(strs(list@), home@, present@),
{
    let mut r: Vec<String> = Vec::new();
    for i in 0..list.len()
        invariant
            present@.len() == list@.len(),
            strs(r@) == kept_expansions(strs(list@).take(i as int), home@, present@.take(i as int)),
    {
        let ghost before = r@;
        proof {
            assert(present@.take(i + 1).drop_last() =~= present@.take(i as int));
            assert(present@.take(i + 1).last() == present@[i as int]);
            assert(strs(list@).take(i + 1).drop_last() =~= strs(list@).take(i as int));
            assert(strs(list@).take(i + 1).last() == list@[i as int]@);
        }
        if present[i] {
            let p = expand_tilde_in(list[i].as_str(), home);
            r.push(p);
            proof {
                assert(strs(r@) =~= strs(before).push(expand_tilde_spec(list@[i as int]@, home@)));
            }
        }
    }
    assert(strs(list@).take(list@.len() as int) == strs(list@));
    assert(present@.take(list@.len() as int) == present@);
    r
}

/// Expanded roots that exist on disk, for home directory `home`: each entry
/// of `list` with `~` expanded, in order, kept when the filesystem reports it
/// present. Which ones it reports is the disk's answer, not stated here.
pub fn existing_in(list: &Vec<String>, home: &str) -> (r: Vec<String>)
    ensures
        exists|flags: Seq<bool>|
            flags.len() == list@.len() && strs(r@) == kept_expansions(strs(list@), home@, flags),
{
    let mut present: Vec<bool> = Vec::new();
    for i in 0..list.len()
        invariant
            present@.len() == i,
    {
        let p = expand_tilde_in(list[i].as_str(), home);
        present.push(path_exists(p.as_str()));
    }
    keep_present(list, home, &present)
}

/// Expanded roots that exist on disk, for the current user's home directory.
pub fn existing(list: &Vec<String>) -> (r: Vec<String>)
    ensures
        exists|h: Seq<char>, flags: Seq<bool>|
            h.len() > 0 && flags.len() == list@.len() && strs(r@) == kept_expansions(strs(list@), h, flags),
{
    let home = home_dir();
    existing_in(list, home.as_str())
}

/// Errors building the compiled matchers.
#[derive(Debug, Clone, PartialEq, Eq)]
pub enum MatcherError {
    /// A pattern that `globset` does not accept.
    BadGlob(String),
    /// The patterns were accepted one by one but the set did not compile.
    Build,
}

impl MatcherError {
    /// The message reported for a category skipped because of this error.
    pub fn message(&self) -> (r: String)
        ensures
            self matches MatcherError::BadGlob(p) ==> r@ == "bad glob "@ + p@,
            self is Build ==> r@ == "glob set failed to compile"@,
    {
        match self {
            MatcherError::BadGlob(p) => {
                let mut s = owned("bad glob ");
                s.append(p.as_str());
                s
            },
            MatcherError::Build => owned("glob set failed to compile"),
        }
    }
}

impl Config {
    /// Expanded cache roots that actually exist on disk.
    pub fn cache_roots(&self) -> (r: Vec<String>)
        ensures
            exists|h: Seq<char>, flags: Seq<bool>|
                flags.len() == self.cache.roots@.len() && strs(r@) == kept_expansions(strs(self.cache.roots@), h, flags),
    {
        existing(&self.cache.roots)
    }

    pub fn log_roots(&self) -> (r: Vec<String>)
        ensures
            exists|h: Seq<char>, flags: Seq<bool>|
                flags.len() == self.logs.roots@.len() && strs(r@) == kept_expansions(strs(self.logs.roots@), h, flags),
    {
        existing(&self.logs.roots)
    }

    pub fn duplicate_roots(&self) -> (r: Vec<String>)
        ensures
            exists|h: Seq<char>, flags: Seq<bool>|
                flags.len() == self.duplicates.roots@.len() && strs(r@) == kept_expansions(strs(self.duplicates.roots@), h, flags),
    {
        existing(&self.duplicates.roots)
    }

    pub fn large_roots(&self) -> (r: Vec<String>)
        ensures
            exists|h: Seq<char>, flags: Seq<bool>|
                flags.len() == self.large.roots@.len() && strs(r@) == kept_expansions(strs(self.large.roots@), h, flags),
    {
        existing(&self.large.roots)
    }

    pub fn dev_artifact_roots(&self) -> (r: Vec<String>)
        ensures
            exists|h: Seq<char>, flags: Seq<bool>|
                flags.len() == self.dev_artifacts.roots@.len() && strs(r@) == kept_expansions(strs(self.dev_artifacts.roots@), h, flags),
    {
        existing(&self.dev_artifacts.roots)
    }

    pub fn dev_artifact_review_roots(&self) -> (r: Vec<String>)
        ensures
            exists|h: Seq<char>, flags: Seq<bool>|
                flags.len() == self.dev_artifacts.review_roots@.len() && strs(r@) == kept_expansions(strs(self.dev_artifacts.review_roots@), h, flags),
    {
        existing(&self.dev_artifacts.review_roots)
    }

    /// Builds the compiled matchers once for a scan run.
    pub fn matchers(&self) -> (r: Result<Matchers, MatcherError>)
        ensures
            r is Ok <==> (all_valid(strs(self.cache.signatures@)) && all_valid(strs(self.logs.dir_signatures@))
                && all_valid(strs(self.logs.file_signatures@)) && globset_builds(strs(self.cache.signatures@))
                && globset_builds(strs(self.logs.dir_signatures@)) && globset_builds(strs(self.logs.file_signatures@))),
            r matches Ok(m) ==> m.built_from(*self),
    {
        Matchers::build(self)
    }
}

pub open spec fn all_valid(ps: Seq<Seq<char>>) -> bool {
    forall|i: int| 0 <= i < ps.len() ==> glob_valid(#[trigger] ps[i])
}

/// Compiles a list of glob patterns into one set.
fn build_globset(patterns: &Vec<String>) -> (r: Result<globset::GlobSet, MatcherError>)
    ensures
        r is Ok <==> (all_valid(strs(patterns@)) && globset_builds(strs(patterns@))),
        r matches Ok(s) ==> set_patterns(s) == strs(patterns@),
{
    let mut builder = builder_new();
    for i in 0..patterns.len()
        invariant
            builder_patterns(builder) == strs(patterns@).take(i as int),
            all_valid(strs(patterns@).take(i as int)),
    {
        match glob_new(patterns[i].as_str()) {
            Ok(g) => {
                builder_add(&mut builder, g);
                assert(strs(patterns@).take(i + 1) == strs(patterns@).take(i as int).push(patterns@[i as int]@));
                assert(all_valid(strs(patterns@).take(i + 1))) by {
                    assert forall|k: int| 0 <= k < i + 1 implies glob_valid(#[trigger] strs(patterns@).take(i + 1)[k]) by {
                        if k < i {
                            assert(strs(patterns@).take(i + 1)[k] == strs(patterns@).take(i as int)[k]);
                        }
                    }
                }
            },
            Err(_) => {
                assert(!glob_valid(strs(patterns@)[i as int]));
                return Err(MatcherError::BadGlob(patterns[i].clone()));
            },
        }
    }
    assert(strs(patterns@).take(patterns@.len() as int) == strs(patterns@));
    match builder_build(&builder) {
        Ok(s) => Ok(s),
        Err(_) => Err(MatcherError::Build),
    }
}

/// Whether `list` holds the text `name`.
pub fn list_contains(list: &Vec<String>, name: &Vec<char>) -> (r: bool)
    ensures
        r == strs(list@).contains(name@),
{
    for i in 0..list.len()
        invariant
            forall|k: int| 0 <= k < i ==> list@[k]@ != name@,
    {
        let c = chars_of(list[i].as_str());
        if chars_equal(&c, name) {
            assert(strs(list@)[i as int] == name@);
            return true;
        }
    }
    assert forall|k: int| 0 <= k < strs(list@).len() implies strs(list@)[k] != name@ by {
        assert(strs(list@)[k] == list@[k]@);
    }
    false
}

/// A path component that marks protected user data: a listed name, or a
/// Chromium `Profile N` directory.
pub open spec fn protected_comp(names: Seq<Seq<char>>, c: Seq<char>) -> bool {
    names.contains(c) || starts_with(c, "Profile "@)
}

/// Precompiled pattern matchers derived from a [`Config`].
pub struct Matchers {
    pub cache_sig: globset::GlobSet,
    pub log_dir_sig: globset::GlobSet,
    pub log_file_sig: globset::GlobSet,
    pub exclude_names: Vec<String>,
    pub protected_names: Vec<String>,
}

impl Matchers {
    /// These matchers were compiled from `cfg`.
    pub open spec fn built_from(self, cfg: Config) -> bool {
        &&& set_patterns(self.cache_sig) == strs(cfg.cache.signatures@)
        &&& set_patterns(self.log_dir_sig) == strs(cfg.logs.dir_signatures@)
        &&& set_patterns(self.log_file_sig) == strs(cfg.logs.file_signatures@)
        &&& strs(self.exclude_names@) == strs(cfg.exclude_dir_names@)
        &&& strs(self.protected_names@) == strs(cfg.protected_names@)
    }

    fn build(cfg: &Config) -> (r: Result<Matchers, MatcherError>)
        ensures
            r is Ok <==> (all_valid(strs(cfg.cache.signatures@)) && all_valid(strs(cfg.logs.dir_signatures@))
                && all_valid(strs(cfg.logs.file_signatures@)) && globset_builds(strs(cfg.cache.signatures@))
                && globset_builds(strs(cfg.logs.dir_signatures@)) && globset_builds(strs(cfg.logs.file_signatures@))),
            r matches Ok(m) ==> m.built_from(*cfg),
    {
        let cache_sig = build_globset(&cfg.cache.signatures)?;
        let log_dir_sig = build_globset(&cfg.logs.dir_signatures)?;
        let log_file_sig = build_globset(&cfg.logs.file_signatures)?;
        let exclude_names = cfg.exclude_dir_names.clone();
        let protected_names = cfg.protected_names.clone();
        proof {
            assert(strs(exclude_names@) =~= strs(cfg.exclude_dir_names@));
            assert(strs(protected_names@) =~= strs(cfg.protected_names@));
        }
        Ok(Matchers { cache_sig, log_dir_sig, log_file_sig, exclude_names, protected_names })
    }

    /// True if a directory *name* marks a cache subtree.
    pub fn is_cache_signature(&self, name: &str) -> (r: bool)
        ensures
            r == globset_matches(set_patterns(self.cache_sig), name@),
    {
        set_is_match(&self.cache_sig, name)
    }

    pub fn is_log_dir(&self, name: &str) -> (r: bool)
        ensures
            r == globset_matches(set_patterns(self.log_dir_sig), name@),
    {
        set_is_match(&self.log_dir_sig, name)
    }

    pub fn is_log_file(&self, name: &str) -> (r: bool)
        ensures
            r == globset_matches(set_patterns(self.log_file_sig), name@),
    {
        set_is_match(&self.log_file_sig, name)
    }

    /// Directory name skipped during recursive scans.
    pub fn is_excluded_dir(&self, name: &str) -> (r: bool)
        ensures
            r == strs(self.exclude_names@).contains(name@),
    {
        list_contains(&self.exclude_names, &chars_of(name))
    }

    /// Some component of `p` marks protected user data.
    pub open spec fn protects(self, p: Seq<char>) -> bool {
        exists|i: int| 0 <= i < comps(p).len() && #[trigger] protected_comp(strs(self.protected_names@), comps(p)[i])
    }

    /// Protected path components plus Chromium `Profile N` directories.
    pub fn is_protected(&self, path: &str) -> (r: bool)
        ensures
            r == self.protects(path@),
    {
        let cs = components(&chars_of(path));
        let prefix = chars_of("Profile ");
        for i in 0..cs.len()
            invariant
                cs@.len() == comps(path@).len(),
                forall|k: int| 0 <= k < cs@.len() ==> #[trigger] cs@[k]@ == comps(path@)[k],
                prefix@ == "Profile "@,
                forall|k: int| 0 <= k < i ==> !#[trigger] protected_comp(strs(self.protected_names@), comps(path@)[k]),
        {
            if list_contains(&self.protected_names, &cs[i]) || starts_with_chars(&cs[i], &prefix) {
                assert(protected_comp(strs(self.protected_names@), comps(path@)[i as int]));
                return true;
            }
        }
        false
    }
}

} // verus!
