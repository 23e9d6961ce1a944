use mac_cleaner::fs_util::{expand_tilde, home_dir, human_size, is_in_user_trash_in, real_size, user_trash_dir_in};
use mac_cleaner::paths::join;

#[test]
fn fs_util_human_size_formats() {
    assert_eq!(human_size(0), "0 B");
    assert_eq!(human_size(512), "512 B");
    assert_eq!(human_size(1024), "1.0 KB");
    assert_eq!(human_size(1536), "1.5 KB");
    assert_eq!(human_size(1024 * 1024), "1.0 MB");
    assert_eq!(human_size(3 * 1024 * 1024 * 1024), "3.0 GB");
}

#[test]
fn integration_test_human_size_formats() {
    assert_eq!(human_size(1024 * 1024), "1.0 MB");
    assert_eq!(human_size(0), "0 B");
}

#[test]
fn given_sizes_when_human_size_then_formats_consistently() {
    assert_eq!(human_size(1024 * 1024), "1.0 MB");
    assert_eq!(human_size(0), "0 B");
}

#[test]
fn expand_tilde_expands() {
    let home = home_dir();
    assert_eq!(expand_tilde("~"), home);
    assert_eq!(expand_tilde("~/Library"), join(&home, "Library"));
    assert_eq!(expand_tilde("/tmp/x"), "/tmp/x");
}

#[test]
fn human_size_matches_float_formatting() {
    for b in [1u64, 1023, 1024, 1025, 1500, 10 * 1024, 99 * 1024, 100 * 1024, 123_456_789, 5 << 40, u64::MAX] {
        let mut v = b as f64;
        let mut unit = 0;
        while v >= 1024.0 && unit < 5 {
            v /= 1024.0;
            unit += 1;
        }
        let names = ["B", "KB", "MB", "GB", "TB", "PB"];
        let expected = if unit == 0 {
            format!("{b} B")
        } else if v >= 100.0 {
            format!("{:.0} {}", v, names[unit])
        } else {
            format!("{:.1} {}", v, names[unit])
        };
        assert_eq!(human_size(b), expected, "bytes {b}");
    }
}

#[test]
fn real_size_counts_blocks_of_512_and_saturates() {
    assert_eq!(real_size(8), 4096);
    assert_eq!(real_size(u64::MAX), u64::MAX);
}

#[test]
fn trash_dir_and_membership() {
    assert_eq!(user_trash_dir_in("/Users/me"), "/Users/me/.Trash");
    assert!(is_in_user_trash_in("/Users/me/.Trash/old.dmg", "/Users/me"));
    assert!(!is_in_user_trash_in("/Users/me/Downloads/old.dmg", "/Users/me"));
    assert!(!is_in_user_trash_in("/Users/me/.Trashcan/x", "/Users/me"));
}
