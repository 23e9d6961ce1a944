use mac_cleaner::config::{Config, LargeConfig};
use mac_cleaner::fs_util::home_dir;
use mac_cleaner::model::{Category, DockerPrune, ItemAction, SafetyTier};
use mac_cleaner::paths::join;
use mac_cleaner::scan::caches::{app_cache_item, cache_note, cache_tier, docker_df_items, docker_scan_items, parse_docker_size};
use mac_cleaner::scan::dev_artifacts::{classify_dir, review_root_note, DirVerdict};
use mac_cleaner::scan::duplicates::{
    duplicate_items, group_by_key, partial_digest, reads_tail, size_candidates, Digester, FileEntry, PARTIAL,
};
use mac_cleaner::scan::icloud::{
    classify_entry, display_label, placeholder_path, should_skip_dir, should_skip_file_path, EntryKind, EntryVerdict,
    IcloudWalk,
};
use mac_cleaner::scan::large::{is_installer_or_archive, large_file_item};
use mac_cleaner::scan::logs::{log_dir_item, log_file_item};
use mac_cleaner::scan::{
    entry_size, label_for, label_for_in, parse_df_output, scan_outcome, walk_descends, walk_entry, InodeSet, PathSet,
    ScanLimits, WalkEntry,
};
use mac_cleaner::event::{DiskInfo, WorkerMsg};

#[test]
fn parse_docker_sizes() {
    assert_eq!(parse_docker_size("0B"), 0);
    assert_eq!(parse_docker_size("512B"), 512);
    assert_eq!(parse_docker_size("1KB"), 1024);
    assert_eq!(parse_docker_size("2MB"), 2 * 1_048_576);
    assert_eq!(parse_docker_size("1.5GB"), (1.5 * 1_073_741_824.0) as u64);
    assert_eq!(parse_docker_size(""), 0);
    assert_eq!(parse_docker_size("garbage"), 0);
    // Docker often pads the reclaimable column with spaces.
    assert_eq!(parse_docker_size("  3GB "), (3.0 * 1_073_741_824.0) as u64);
}

#[test]
fn parse_docker_sizes_match_float_reading() {
    for s in [
        "0.1KB", "2.75MB", "12.3GB", ".5MB", "7.GB", "+1.25KB", "-1GB", "1.2kB", "3 MB", "99999999999999GB", "1e3KB",
        "1.5e-1GB", "2E2KB", "infGB", "INFINITYMB", "+infKB", "nanGB", "-infGB", "NaNKB", "1e400GB", "1e-400GB",
        "1eGB", "e5KB", "1e+2MB", "1e2.5KB", "+1e1B", "3.7e2MB", "-0GB", "0e99999999999999999999999KB",
    ] {
        let t = s.trim();
        let expected = if let Some(n) = t.strip_suffix("GB") {
            (n.trim().parse::<f64>().unwrap_or(0.0) * 1_073_741_824.0) as u64
        } else if let Some(n) = t.strip_suffix("MB") {
            (n.trim().parse::<f64>().unwrap_or(0.0) * 1_048_576.0) as u64
        } else if let Some(n) = t.strip_suffix("KB") {
            (n.trim().parse::<f64>().unwrap_or(0.0) * 1024.0) as u64
        } else if let Some(n) = t.strip_suffix('B') {
            n.trim().parse().unwrap_or(0)
        } else {
            0
        };
        assert_eq!(parse_docker_size(s), expected, "{s}");
    }
}

#[test]
fn skips_dev_and_bundle_directories() {
    assert!(should_skip_dir("node_modules"));
    assert!(should_skip_dir("Electron.app"));
    assert!(should_skip_dir("Electron Framework.framework"));
    assert!(!should_skip_dir("Documents"));
}

#[test]
fn skips_app_internals_and_node_modules_files() {
    let root = "/icloud";
    let electron = join(
        root,
        "Documents/Mac-Standalone/node_modules/electron/dist/Electron.app/Contents/Frameworks/Electron Framework.framework/Versions/A/Electron Framework",
    );
    assert!(should_skip_file_path(&electron, root));

    let pdf = join(root, "homework4.pdf");
    assert!(!should_skip_file_path(&pdf, root));

    let nested = join(root, "Documents/report.pdf");
    assert!(!should_skip_file_path(&nested, root));
}

#[test]
fn display_label_is_relative_to_icloud_root() {
    let root = "/icloud";
    let path = join(root, "Documents/homework4.pdf");
    assert_eq!(display_label(root, &path), "Documents/homework4.pdf");
}

#[test]
fn icloud_walk_decisions() {
    assert_eq!(classify_entry(".hidden", EntryKind::File), EntryVerdict::Skip);
    assert_eq!(classify_entry("movie.mov.icloud", EntryKind::File), EntryVerdict::Skip);
    assert_eq!(classify_entry("link", EntryKind::Symlink), EntryVerdict::Skip);
    assert_eq!(classify_entry("Pods", EntryKind::Dir), EntryVerdict::Skip);
    assert_eq!(classify_entry("Documents", EntryKind::Dir), EntryVerdict::Descend);
    assert_eq!(classify_entry("movie.mov", EntryKind::File), EntryVerdict::Consider);
    assert_eq!(placeholder_path("/icloud/Docs/movie.mov", "movie.mov"), "/icloud/Docs/.movie.mov.icloud");

    let mut w = IcloudWalk::new();
    let big = 20 * 1024 * 1024;
    assert!(w.consider("/icloud/a.mov".to_string(), "/icloud", big, false, (1, 10)));
    assert!(!w.consider("/icloud/hardlink.mov".to_string(), "/icloud", big, false, (1, 10)));
    assert!(!w.consider("/icloud/small.mov".to_string(), "/icloud", 1024, false, (1, 11)));
    assert!(!w.consider("/icloud/evicted.mov".to_string(), "/icloud", big, true, (1, 12)));
    assert_eq!(w.items.len(), 1);
    assert_eq!(w.items[0].label, "a.mov");
    assert_eq!(w.items[0].action, ItemAction::Evict);
}

#[test]
fn label_for_file_uses_relative_path() {
    let home = home_dir();
    let path = join(&home, "Downloads/big-movie.mp4");
    assert_eq!(label_for(&path, "large file", false), "Downloads/big-movie.mp4");
}

#[test]
fn label_for_dir_uses_relative_path_for_cache() {
    let home = home_dir();
    let path = join(&home, "Library/Caches/com.example.app");
    assert_eq!(label_for(&path, "cache", false), "Library/Caches/com.example.app");
}

#[test]
fn label_for_trash_item_uses_relative_path() {
    let home = home_dir();
    let path = join(&home, ".Trash/old.dmg");
    assert_eq!(label_for(&path, "old.dmg", false), ".Trash/old.dmg");
}

#[test]
fn label_for_other_suffixes() {
    assert_eq!(label_for_in("/Users/me/proj/thing", "extra", "/Users/me", false), "proj/thing \u{2014} extra");
    assert_eq!(label_for_in("/Users/me/proj/thing", "extra", "/Users/me", true), "proj/thing");
    assert_eq!(label_for_in("/Users/me/proj/thing", "", "/Users/me", false), "proj \u{2014} proj/thing");
    assert_eq!(label_for_in("/elsewhere/x", "cache", "/Users/me", false), "/elsewhere/x");
}

#[test]
fn scan_limits_scale_for_fourteen_cores() {
    let limits = ScanLimits::for_cpus(7, 14);
    assert_eq!(limits.category_workers, 3);
    assert_eq!(limits.walk_threads, 2);
    assert_eq!(limits.hash_threads, 10);
}

#[test]
fn scan_limits_small_machines() {
    let one = ScanLimits::for_cpus(7, 0);
    assert_eq!((one.category_workers, one.walk_threads, one.hash_threads), (2, 1, 1));
    let single = ScanLimits::for_cpus(1, 64);
    assert_eq!((single.category_workers, single.walk_threads, single.hash_threads), (1, 2, 62));
    assert_eq!(ScanLimits::auto(7, None), ScanLimits::for_cpus(7, 4));
}

#[test]
fn disk_info_from_df() {
    let out = "Filesystem 1024-blocks Used Available Capacity Mounted on\n/dev/disk3s1s1 971350180 10000 500000 3% /\n";
    assert_eq!(parse_df_output(out), Some(DiskInfo { total: 971350180 * 1024, free: 500000 * 1024 }));
    assert_eq!(parse_df_output("header only\n"), Some(DiskInfo { total: 0, free: 0 }));
    assert_eq!(parse_df_output("h\nshort line\nfs x y z\n"), Some(DiskInfo { total: 0, free: 0 }));
    assert_eq!(parse_df_output("h\nfs 99999999999999999999 1 2\n"), Some(DiskInfo { total: 0, free: 2048 }));
    assert_eq!(parse_df_output("h\nfs 18014398509481984 1 2\n"), None);
}

#[test]
fn cache_classification() {
    assert_eq!(cache_tier("com.microsoft.VSCode.ShipIt"), SafetyTier::Safe);
    assert_eq!(cache_tier("DerivedData"), SafetyTier::Moderate);
    assert_eq!(cache_tier("cargo-registry"), SafetyTier::Moderate);
    assert_eq!(cache_tier("GPUCache"), SafetyTier::Safe);
    assert_eq!(cache_note("ShipIt"), "updater leftover \u{2014} safe to remove");
    assert_eq!(cache_note("Cache"), "regenerable cache");
    let apple = app_cache_item("/c/com.apple.Safari".to_string(), "com.apple.Safari".to_string(), 10);
    assert_eq!(apple.tier, SafetyTier::Moderate);
    assert_eq!(apple.regen_note, "app cache");
    let other = app_cache_item("/c/org.x".to_string(), "org.x".to_string(), 10);
    assert_eq!(other.tier, SafetyTier::Safe);
}

#[test]
fn docker_items_from_df_output() {
    let out = "Images\t2.5GB (40%)\nContainers\t0B\nLocal Volumes\t1.5MB\nBuild Cache\t\nUnknown\t3GB\n";
    let items = docker_df_items(out);
    assert_eq!(items.len(), 2);
    assert_eq!(items[0].label, "Docker unused images (2.5GB (40%))");
    assert_eq!(items[0].real_bytes, 0);
    assert_eq!(items[0].action, ItemAction::DockerPrune(DockerPrune::Images));
    assert_eq!(items[1].label, "Docker dangling volumes (1.5MB)");
    assert_eq!(items[1].real_bytes, 1_572_864);
    assert_eq!(items[1].path, "/docker-prune");

    assert!(docker_scan_items(false, None, true, Some(out)).is_empty());
    let stopped = docker_scan_items(true, Some(("/raw".to_string(), 5)), false, None);
    assert_eq!(stopped.len(), 2);
    assert_eq!(stopped[0].label, "Docker VM disk (sparse)");
    assert_eq!(stopped[1].path, "/docker-start");
}

#[test]
fn log_items() {
    let old = log_dir_item("/l".to_string(), "l".to_string(), 10, 30, 7);
    assert_eq!((old.tier, old.regen_note.as_str(), old.last_access_days), (SafetyTier::Safe, "old logs", 30));
    let recent = log_file_item("/a.log".to_string(), "a".to_string(), 10, 1, 7, true).unwrap();
    assert_eq!((recent.tier, recent.action), (SafetyTier::Moderate, ItemAction::Truncate));
    let kept = log_file_item("/a.log".to_string(), "a".to_string(), 10, 1, 7, false).unwrap();
    assert_eq!(kept.action, ItemAction::Delete);
    assert!(log_file_item("/a.log".to_string(), "a".to_string(), 0, 1, 7, true).is_none());
}

#[test]
fn large_file_rules() {
    assert!(is_installer_or_archive("/d/Setup.DMG"));
    assert!(is_installer_or_archive("/d/src.tar.gz"));
    assert!(!is_installer_or_archive("/d/notes.txt"));
    let cfg = LargeConfig::default();
    let stale = large_file_item("/d/a.zip".to_string(), "a".to_string(), 20 * 1024 * 1024, 40, &cfg).unwrap();
    assert_eq!(stale.regen_note, "stale installer/archive \u{2014} review before deleting");
    assert!(large_file_item("/d/a.zip".to_string(), "a".to_string(), 20 * 1024 * 1024, 10, &cfg).is_none());
    let big = large_file_item("/d/a.mov".to_string(), "a".to_string(), 200 * 1024 * 1024, 0, &cfg).unwrap();
    assert_eq!(big.regen_note, "user file \u{2014} review before deleting");
    assert_eq!(big.category, Category::LargeFiles);
}

#[test]
fn dev_artifact_rules() {
    let cfg = Config::default();
    let m = cfg.matchers().unwrap();
    assert_eq!(classify_dir(&cfg, &m, "/p/target", "target"), DirVerdict::Artifact);
    assert_eq!(classify_dir(&cfg, &m, "/p/node_modules", "node_modules"), DirVerdict::Dependency);
    assert_eq!(classify_dir(&cfg, &m, "/p/Thing.APP", "Thing.APP"), DirVerdict::Prune);
    assert_eq!(classify_dir(&cfg, &m, "/p/src", "src"), DirVerdict::Descend);
    // A protected folder is pruned even when its name marks build output.
    assert_eq!(classify_dir(&cfg, &m, "/p/.ssh/target", "target"), DirVerdict::Prune);
    assert_eq!(classify_dir(&cfg, &m, "/p/Profile 2/node_modules", "node_modules"), DirVerdict::Prune);
    assert_eq!(review_root_note("~/Library/Developer/Xcode/DerivedData"), "Xcode DerivedData \u{2014} rebuildable project cache");
}

#[test]
fn claimed_paths_count_once() {
    let mut s = PathSet::new();
    assert!(s.insert("/a/b"));
    assert!(!s.insert("/a//b/"));
    assert!(s.insert("/a/c"));
}

#[test]
fn scan_outcome_reports_totals_then_items() {
    let items = vec![log_dir_item("/l".to_string(), "l".to_string(), 10, 30, 7)];
    let msgs = scan_outcome(Category::Logs, Ok(items));
    assert!(matches!(msgs[0], WorkerMsg::ScanProgress { category: Category::Logs, found: 1, bytes: 10 }));
    assert!(matches!(msgs[1], WorkerMsg::ScanDone { category: Category::Logs, .. }));
    let skipped = scan_outcome(Category::Logs, Err("boom".to_string()));
    assert!(matches!(&skipped[0], WorkerMsg::ScanSkipped { reason, .. } if reason == "boom"));
}

fn entry(path: &str, bytes: u64, birth: i128) -> FileEntry {
    FileEntry { path: path.to_string(), bytes, birth }
}

#[test]
fn duplicates_keep_the_oldest_of_each_set() {
    let files = vec![
        entry("/d/a.bin", 8192, 30),
        entry("/d/b.bin", 8192, 10),
        entry("/d/c.bin", 8192, 20),
        entry("/d/unique.bin", 4096, 5),
    ];
    let cands = size_candidates(&files);
    assert_eq!(cands, vec![0, 1, 2]);
    let same = Digester::new().digest();
    let keyed: Vec<(usize, Vec<u8>, u64)> = cands.iter().map(|&i| (i, same.clone(), files[i].bytes)).collect();
    let groups = group_by_key(&keyed);
    assert_eq!(groups, vec![vec![0, 1, 2]]);
    let items = duplicate_items(&files, &groups);
    assert_eq!(items.len(), 3);
    assert_eq!(items.iter().filter(|i| i.is_keeper).count(), 1);
    let keeper = items.iter().find(|i| i.is_keeper).unwrap();
    assert_eq!(keeper.path, "/d/b.bin");
    assert_eq!(keeper.tier, SafetyTier::Risky);
    assert!(items.iter().all(|i| i.selected != i.is_keeper && i.group_id == Some(1)));
    assert_eq!(items[0].label, "b.bin");
}

#[test]
fn different_contents_are_not_grouped() {
    let a = partial_digest(&[1u8; 16], None);
    let b = partial_digest(&[2u8; 16], None);
    assert_ne!(a, b);
    assert_eq!(a.len(), 32);
    let keyed = vec![(0usize, a.clone(), 16u64), (1, b, 16), (2, a, 16)];
    assert_eq!(group_by_key(&keyed), vec![vec![0, 2]]);
    let mut d = Digester::new();
    d.update(&[1u8; 8]);
    d.update(&[1u8; 8]);
    assert_eq!(d.digest(), partial_digest(&[1u8; 16], None));
}

#[test]
fn walk_skips_protected_and_excluded() {
    let m = Config::default().matchers().unwrap();
    assert_eq!(walk_entry(&m, "/u/.ssh", true, false), WalkEntry::Skip);
    assert_eq!(walk_entry(&m, "/u/.ssh/id_rsa", false, true), WalkEntry::Skip);
    assert_eq!(walk_entry(&m, "/u/Chrome/Profile 1/Cache", true, false), WalkEntry::Skip);
    assert_eq!(walk_entry(&m, "/u/Downloads", true, false), WalkEntry::Dir);
    assert_eq!(walk_entry(&m, "/u/Downloads/a.zip", false, true), WalkEntry::File);
    assert_eq!(walk_entry(&m, "/u/Downloads/link", false, false), WalkEntry::Other);
    assert!(walk_descends(&m, "src", false));
    assert!(!walk_descends(&m, "src", true));
    assert!(!walk_descends(&m, "node_modules", false));
    assert!(!walk_descends(&m, ".git", false));
}

#[test]
fn entry_sizes_count_hard_links_once() {
    let mut seen = InodeSet::new();
    assert_eq!(entry_size(EntryKind::Symlink, 1, (1, 1), 8, &mut seen), 0);
    assert_eq!(entry_size(EntryKind::Other, 1, (1, 2), 8, &mut seen), 0);
    assert_eq!(entry_size(EntryKind::Dir, 2, (1, 3), 8, &mut seen), 4096);
    assert_eq!(entry_size(EntryKind::File, 1, (1, 4), 2, &mut seen), 1024);
    assert_eq!(entry_size(EntryKind::File, 1, (1, 4), 2, &mut seen), 1024);
    assert_eq!(entry_size(EntryKind::File, 2, (1, 5), 2, &mut seen), 1024);
    assert_eq!(entry_size(EntryKind::File, 3, (1, 5), 2, &mut seen), 0);
    assert_eq!(entry_size(EntryKind::File, 2, (2, 5), 2, &mut seen), 1024);
    assert_eq!(entry_size(EntryKind::File, 1, (9, 9), u64::MAX, &mut seen), u64::MAX);
    assert!(seen.insert((7, 7)));
    assert!(!seen.insert((7, 7)));
    assert!(seen.insert((7, 8)));
}

#[test]
fn tail_is_read_only_past_twice_the_head() {
    assert_eq!(PARTIAL, 4096);
    assert!(!reads_tail(8192));
    assert!(reads_tail(8193));
    assert!(!reads_tail(0));
}
