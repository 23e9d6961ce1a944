use mac_cleaner::event::DiskInfo;
use mac_cleaner::model::{Category, SafetyTier, ScanItem, ScanResults, ScanStatus};
use mac_cleaner::ui::dashboard::slices;
use mac_cleaner::ui::detail::{
    age_label, check_mark, check_text, count_label, cursor_position, detail_title, empty_message, has_selection,
    max_item_bytes, needs_scrollbar, row_window, selection_summary, size_bar, visible_data_rows,
    visible_data_rows_for_terminal, CheckMark, BAR_WIDTH,
};
use mac_cleaner::ui::footer::{
    compact_bottom, compact_top, full, key_legend, medium_bottom, medium_top, outer_height, status_line, StatusLine,
};
use mac_cleaner::ui::header::{disk_label, hint_pairs, hint_room};
use mac_cleaner::ui::modal::{modal_body, modal_title, Modal};
use mac_cleaner::ui::sidebar::{count_text, row_stats, size_column, RowStats};
use mac_cleaner::ui::terminal::is_large_enough;
use mac_cleaner::ui::theme::{supports_truecolor, Palette, Shade};
use mac_cleaner::ui::widgets::{key_hint_width, spinner_frame, KeyHint};

#[test]
fn hint_scales_with_room() {
    for room in [40u16, 26, 20, 17, 8, 5] {
        assert!(key_hint_width(&hint_pairs(room)) <= room as usize, "hints overflow at room {room}");
    }
    assert!(!hint_pairs(26).is_empty());
    assert!(hint_pairs(3).is_empty());
}

#[test]
fn one_line_when_wide_enough() {
    assert_eq!(key_legend(158).len(), 1);
}

#[test]
fn two_lines_when_medium() {
    let lines = key_legend(100);
    assert_eq!(lines.len(), 2);
}

#[test]
fn compact_fits_narrow_widths() {
    assert!(key_hint_width(&compact_top()) <= 46);
    assert!(key_hint_width(&compact_bottom()) <= 46);
}

#[test]
fn outer_height_grows_with_two_key_lines() {
    assert!(outer_height(160) < outer_height(100));
}

#[test]
fn legend_widths_are_exact() {
    assert_eq!(key_hint_width(&full()), 130);
    assert_eq!(key_hint_width(&medium_top()), 72);
    assert_eq!(key_hint_width(&medium_bottom()), 63);
    assert_eq!(outer_height(132), 4);
    assert_eq!(outer_height(131), 5);
    let pairs: &[KeyHint] = &[("Space", "select"), ("d", "clean")];
    // "Space select" + "   " + "d clean"
    assert_eq!(key_hint_width(pairs), 22);
}

#[test]
fn size_bar_scales_with_ratio() {
    assert_eq!(size_bar(100, 100).chars().filter(|c| *c == '\u{25ae}').count(), BAR_WIDTH);
    assert_eq!(size_bar(50, 100).chars().filter(|c| *c == '\u{25ae}').count(), BAR_WIDTH / 2);
    // Even tiny items get one visible cell.
    assert_eq!(size_bar(1, 1_000_000).chars().filter(|c| *c == '\u{25ae}').count(), 1);
    assert_eq!(size_bar(1, 100).chars().count(), BAR_WIDTH);
}

#[test]
fn size_bar_rounds_half_up() {
    // 12 * 1 / 24 = 0.5 rounds to 1; 12 * 5 / 8 = 7.5 rounds to 8.
    assert_eq!(size_bar(5, 8).chars().filter(|c| *c == '\u{25ae}').count(), 8);
    assert_eq!(size_bar(0, 0).chars().filter(|c| *c == '\u{25ae}').count(), 1);
    assert_eq!(size_bar(3, 0).chars().filter(|c| *c == '\u{25ae}').count(), 12);
}

#[test]
fn age_label_buckets() {
    assert_eq!(age_label(0), "new");
    assert_eq!(age_label(12), "12d");
    assert_eq!(age_label(90), "3mo");
    assert_eq!(age_label(800), "2y");
}

#[test]
fn count_label_handles_singular() {
    assert_eq!(count_label(1), "1 item");
    assert_eq!(count_label(3), "3 items");
}

#[test]
fn visible_data_rows_is_at_least_one() {
    // A panel 80 columns wide and 20 rows tall.
    assert!(visible_data_rows(20) >= 1);
    assert_eq!(visible_data_rows(0), 1);
}

#[test]
fn taller_panel_shows_more_rows() {
    assert!(visible_data_rows(30) > visible_data_rows(14));
    assert_eq!(visible_data_rows(14), 10);
}

#[test]
fn indexed_palette_uses_no_rgb() {
    let p = Palette::indexed();
    assert!(matches!(p.accent, Shade::Indexed(_)));
    assert!(matches!(p.safe, Shade::Indexed(_)));
}

#[test]
fn truecolor_palette_uses_rgb() {
    let p = Palette::truecolor();
    assert!(matches!(p.accent, Shade::Rgb(_, _, _)));
}

#[test]
fn truecolor_detection() {
    assert!(!supports_truecolor(Some("Apple_Terminal"), Some("truecolor")));
    assert!(supports_truecolor(None, Some("TrueColor")));
    assert!(supports_truecolor(None, Some("24bit")));
    assert!(supports_truecolor(Some("iTerm.app"), None));
    assert!(!supports_truecolor(Some("xterm"), Some("256color")));
    assert!(!supports_truecolor(None, None));
}

#[test]
fn disk_label_narrows_with_width() {
    let d = DiskInfo { total: 1024 * 1024 * 1024, free: 256 * 1024 * 1024 };
    assert_eq!(disk_label(d, 40), "768 MB used / 256 MB free");
    assert_eq!(disk_label(d, 30), "768 MB / 256 MB");
    assert_eq!(disk_label(d, 10), "75%");
    assert_eq!(disk_label(DiskInfo { total: 0, free: 0 }, 10), "0%");
    assert_eq!(hint_room(40), 29);
    assert_eq!(hint_room(5), 0);
}

#[test]
fn detail_texts() {
    let mut a = ScanItem::new("/a".to_string(), "a".to_string(), 1024, SafetyTier::Safe, Category::Caches);
    a.selected = true;
    let b = ScanItem::new("/b".to_string(), "b".to_string(), 512, SafetyTier::Safe, Category::Caches);
    let items = vec![a, b];
    assert_eq!(detail_title(Category::Caches, &items), " Caches \u{2014} 2 items \u{b7} 1.5 KB ");
    assert_eq!(detail_title(Category::Caches, &vec![]), " Caches ");
    assert_eq!(selection_summary(&items), "1 of 2 selected \u{b7} 1.0 KB");
    assert_eq!(cursor_position(0, 2), "1/2");
    assert_eq!(cursor_position(9, 2), "2/2");
    assert_eq!(empty_message(&ScanStatus::Skipped("denied".to_string())), "Skipped: denied");
    assert_eq!(empty_message(&ScanStatus::Pending), "Scanning\u{2026}");
}

#[test]
fn sidebar_columns() {
    assert_eq!(count_text(2, 10), "   2/10");
    assert_eq!(count_text(12345, 67890), "  67890");
    let empty = RowStats { bytes: 0, total: 0, selected: 0, pending: false };
    assert_eq!(size_column(empty), "        \u{2013}");
    let pending = RowStats { bytes: 0, total: 0, selected: 0, pending: true };
    assert_eq!(size_column(pending), "        \u{2026}");
    let mut r = ScanResults::new();
    r.set_status(Category::Logs, ScanStatus::Scanning { found: 4, bytes: 2048 });
    assert_eq!(row_stats(&r, Category::Logs), RowStats { bytes: 2048, total: 4, selected: 0, pending: false });
}

#[test]
fn dashboard_slices_skip_empty_categories() {
    let mut r = ScanResults::new();
    r.set_items(
        Category::Logs,
        vec![ScanItem::new("/l".to_string(), "l".to_string(), 7, SafetyTier::Safe, Category::Logs)],
    );
    assert_eq!(slices(&r), vec![(Category::Logs, 7)]);
}

#[test]
fn spinner_cycles_and_modal_texts() {
    assert_eq!(spinner_frame(0), spinner_frame(10));
    assert_ne!(spinner_frame(0), spinner_frame(1));
    assert!(is_large_enough(160, 50));
    assert!(!is_large_enough(159, 50));
    let m = Modal::ConfirmClean { count: 2, bytes: 2048, permanent: false, empty_trash: false, evict_only: false };
    assert_eq!(modal_title(&m), "Confirm clean");
    assert!(modal_body(&m).starts_with("Move 2 items (2.0 KB) to Trash?"));
}

#[test]
fn footer_status_line_texts() {
    let mut r = ScanResults::new();
    assert_eq!(
        status_line(&r, true, 3, "Scanning Logs"),
        StatusLine::Scanning { spinner: "\u{2838} Scanning\u{2026} ".to_string(), status: "Scanning Logs".to_string() }
    );
    assert_eq!(
        status_line(&r, false, 3, "x"),
        StatusLine::Idle("Nothing selected \u{2014} Space toggles an item, s selects everything Safe")
    );
    let mut a = ScanItem::new("/a".to_string(), "a".to_string(), 1536, SafetyTier::Safe, Category::Caches);
    a.selected = true;
    let b = ScanItem::new("/b".to_string(), "b".to_string(), 99, SafetyTier::Safe, Category::Caches);
    r.set_items(Category::Caches, vec![a, b]);
    assert_eq!(status_line(&r, false, 0, "x"), StatusLine::Selected("1 selected \u{b7} 1.5 KB".to_string()));
}

#[test]
fn detail_table_rows_marks_and_scale() {
    let mut keeper = ScanItem::new("/k".to_string(), "k".to_string(), 30, SafetyTier::Risky, Category::Duplicates);
    keeper.is_keeper = true;
    keeper.group_id = Some(1);
    let mut sel = ScanItem::new("/s".to_string(), "s".to_string(), 70, SafetyTier::Safe, Category::Duplicates);
    sel.selected = true;
    let plain = ScanItem::new("/p".to_string(), "p".to_string(), 5, SafetyTier::Safe, Category::Duplicates);
    assert_eq!(check_mark(&keeper), CheckMark::Locked);
    assert_eq!(check_mark(&sel), CheckMark::Checked);
    assert_eq!(check_mark(&plain), CheckMark::Unchecked);
    assert_eq!(check_text(CheckMark::Locked), "[\u{2013}]");
    assert_eq!(check_text(CheckMark::Checked), "[x]");
    assert_eq!(check_text(CheckMark::Unchecked), "[ ]");
    let items = vec![keeper, sel, plain];
    assert_eq!(max_item_bytes(&items), 70);
    assert_eq!(max_item_bytes(&Vec::new()), 1);
    assert!(has_selection(&items));
    assert!(!has_selection(&items[2..].to_vec()));
    assert_eq!(row_window(10, 3, 4), (3, 7));
    assert_eq!(row_window(10, 8, 4), (8, 10));
    assert_eq!(row_window(2, 5, 4), (2, 2));
    assert!(needs_scrollbar(10, 4));
    assert!(!needs_scrollbar(4, 4));
}

#[test]
fn taller_terminal_never_shows_fewer_rows() {
    for w in [0u16, 60, 100, 160, 300] {
        let footer = outer_height(w);
        let mut last = 0usize;
        for h in 0u16..400 {
            let rows = visible_data_rows_for_terminal(w, h);
            assert!(rows >= 1);
            if h >= 13 + footer {
                assert_eq!(rows, (h - 3 - footer - 4) as usize, "w {w} h {h}");
                assert!(rows >= last);
            }
            last = rows;
        }
    }
}
