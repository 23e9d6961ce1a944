use mac_cleaner::app::{App, Effect, Key, KeyCode};
use mac_cleaner::config::Config;
use mac_cleaner::event::WorkerMsg;
use mac_cleaner::model::{Category, SafetyTier, ScanItem, ScanStatus};
use mac_cleaner::privilege::PrivilegeInfo;
use mac_cleaner::ui::modal::Modal;

fn app() -> App {
    let privilege = PrivilegeInfo { is_root: false, limited: true, full_disk_access: true };
    App::new(Config::default(), privilege, Category::ALL.to_vec(), true)
}

fn item(bytes: u64, tier: SafetyTier) -> ScanItem {
    ScanItem::new(format!("/x/{bytes}"), format!("i{bytes}"), bytes, tier, Category::Caches)
}

fn selected_count(a: &App, cat: Category) -> usize {
    a.results.items_for(cat).iter().filter(|i| i.selected).count()
}

fn key(code: KeyCode) -> Key {
    Key { code, ctrl: false }
}

#[test]
fn select_all_and_deselect_respects_current_category() {
    let mut a = app();
    a.results.set_items(
        Category::Caches,
        vec![item(1, SafetyTier::Safe), item(2, SafetyTier::Moderate), item(3, SafetyTier::Risky)],
    );
    a.current_category = Category::Caches;

    a.select_all_category(true);
    assert_eq!(selected_count(&a, Category::Caches), 3);

    a.select_all_category(false);
    assert_eq!(selected_count(&a, Category::Caches), 0);
}

#[test]
fn select_all_safe_spans_categories_but_only_safe() {
    let mut a = app();
    a.results.set_items(Category::Caches, vec![item(1, SafetyTier::Safe), item(2, SafetyTier::Risky)]);
    a.results.set_items(Category::Logs, vec![item(3, SafetyTier::Safe)]);

    a.select_all_safe();
    assert_eq!(selected_count(&a, Category::Caches), 1);
    assert_eq!(selected_count(&a, Category::Logs), 1);
}

#[test]
fn toggle_and_move_row_clamps() {
    let mut a = app();
    a.results.set_items(Category::Caches, vec![item(1, SafetyTier::Safe), item(2, SafetyTier::Safe)]);
    a.current_category = Category::Caches;
    a.selected_row = 0;

    a.toggle_current();
    assert!(a.results.items_for(Category::Caches)[0].selected);

    a.move_row(1);
    assert_eq!(a.selected_row, 1);
    a.move_row(50);
    assert_eq!(a.selected_row, 1);
    a.move_row(-50);
    assert_eq!(a.selected_row, 0);
}

#[test]
fn move_row_scrolls_one_line_when_selection_leaves_view() {
    let mut a = app();
    let visible = a.detail_visible_rows;
    let count = visible + 5;
    a.results.set_items(
        Category::LargeFiles,
        (0..count).map(|i| item(i as u64 * 1000, SafetyTier::Moderate)).collect(),
    );
    a.current_category = Category::LargeFiles;

    for _ in 0..visible.saturating_sub(1) {
        a.move_row(1);
    }
    assert_eq!(a.selected_row, visible - 1);
    assert_eq!(a.scroll, 0);

    a.move_row(1);
    assert_eq!(a.selected_row, visible);
    assert_eq!(a.scroll, 1);

    a.move_row(-1);
    assert_eq!(a.selected_row, visible - 1);
    assert_eq!(a.scroll, 1);

    while a.selected_row > a.scroll {
        a.move_row(-1);
    }
    assert_eq!(a.selected_row, a.scroll);

    a.move_row(-1);
    assert_eq!(a.scroll, 0);
}

#[test]
fn move_row_keeps_selection_on_screen() {
    let mut a = app();
    let visible = a.detail_visible_rows;
    let count = visible + 5;
    a.results.set_items(
        Category::LargeFiles,
        (0..count).map(|i| item(i as u64 * 1000, SafetyTier::Moderate)).collect(),
    );
    a.current_category = Category::LargeFiles;

    for _ in 0..count - 1 {
        a.move_row(1);
    }
    assert_eq!(a.selected_row, count - 1);
    assert!(a.selected_row < a.scroll + visible);
}

#[test]
fn invert_flips_selectable_items() {
    let mut a = app();
    let mut sel = item(1, SafetyTier::Safe);
    sel.selected = true;
    a.results.set_items(Category::Caches, vec![sel, item(2, SafetyTier::Safe)]);
    a.current_category = Category::Caches;

    a.invert_category();
    let items = a.results.items_for(Category::Caches);
    assert!(!items[0].selected);
    assert!(items[1].selected);
}

#[test]
fn flip_keeper_moves_the_lock_within_a_group() {
    let mut a = app();
    let mut a0 = item(100, SafetyTier::Risky);
    a0.group_id = Some(1);
    a0.is_keeper = true;
    a0.selected = false;
    let mut a1 = item(100, SafetyTier::Safe);
    a1.group_id = Some(1);
    a1.is_keeper = false;
    a1.selected = true;
    a.results.set_items(Category::Duplicates, vec![a0, a1]);
    a.current_category = Category::Duplicates;
    a.selected_row = 1;

    a.flip_keeper();
    let items = a.results.items_for(Category::Duplicates);
    assert!(items[1].is_keeper && !items[1].selected);
    assert_eq!(items[1].tier, SafetyTier::Risky);
    assert!(!items[0].is_keeper && items[0].selected);
    assert_eq!(items[0].tier, SafetyTier::Safe);
}

#[test]
fn enter_on_docker_start_opens_modal() {
    let mut a = app();
    let mut docker = item(0, SafetyTier::Moderate);
    docker.path = "/docker-start".to_string();
    a.results.set_items(Category::Caches, vec![docker]);
    a.current_category = Category::Caches;
    a.selected_row = 0;

    let r = a.handle_main_key(key(KeyCode::Enter));
    assert!(!r.quit);
    assert!(matches!(a.modal, Modal::DockerStart));
}

#[test]
fn remove_cleaned_drops_selected_keeps_locked() {
    let mut a = app();
    let mut sel = item(1, SafetyTier::Safe);
    sel.selected = true;
    let unsel = item(2, SafetyTier::Safe);
    let mut keeper = item(3, SafetyTier::Safe);
    keeper.selected = true;
    keeper.is_keeper = true;
    a.results.set_items(Category::Caches, vec![sel, unsel, keeper]);

    a.remove_cleaned();
    let remaining: Vec<u64> = a.results.items_for(Category::Caches).iter().map(|i| i.real_bytes).collect();
    assert!(!remaining.contains(&1));
    assert!(remaining.contains(&2));
    assert!(remaining.contains(&3));
    assert_eq!(selected_count(&a, Category::Caches), 0);
}

#[test]
fn step_moves_keep_the_cursor_visible_both_ways() {
    let mut a = app();
    let visible = a.detail_visible_rows;
    let count = visible * 3;
    a.results.set_items(
        Category::LargeFiles,
        (0..count).map(|i| item(i as u64, SafetyTier::Moderate)).collect(),
    );
    a.current_category = Category::LargeFiles;
    for step in [1, 1, -1, 1, 1, 1, -1, -1, -1, -1, -1, -1] {
        for _ in 0..visible {
            a.move_row(step);
            assert!(a.scroll <= a.selected_row && a.selected_row < a.scroll + visible);
        }
    }
}

#[test]
fn keys_drive_the_selection_and_quit() {
    let mut a = app();
    a.results.set_items(Category::Caches, vec![item(1, SafetyTier::Safe), item(2, SafetyTier::Risky)]);
    assert!(!a.handle_key(key(KeyCode::Char('s'))).quit);
    assert_eq!(selected_count(&a, Category::Caches), 1);
    a.handle_key(key(KeyCode::Char('n')));
    assert_eq!(selected_count(&a, Category::Caches), 0);
    a.handle_key(key(KeyCode::Char('?')));
    assert!(matches!(a.modal, Modal::Help));
    a.handle_key(key(KeyCode::Char('x')));
    assert!(matches!(a.modal, Modal::Closed));
    assert!(a.handle_key(key(KeyCode::Char('q'))).quit);
    assert!(a.handle_key(key(KeyCode::Esc)).quit);
}

#[test]
fn tab_walks_the_categories_and_wraps() {
    let mut a = app();
    a.selected_row = 3;
    a.handle_key(key(KeyCode::Tab));
    assert_eq!(a.current_category, Category::Logs);
    assert_eq!(a.selected_row, 0);
    assert!(!a.show_dashboard);
    a.current_category = Category::Caches;
    a.handle_key(key(KeyCode::BackTab));
    assert_eq!(a.current_category, Category::Trash);
}

#[test]
fn confirm_then_yes_hands_the_selection_to_the_cleaner() {
    let mut a = app();
    let mut sel = item(100, SafetyTier::Safe);
    sel.selected = true;
    a.results.set_items(Category::Caches, vec![sel, item(7, SafetyTier::Safe)]);
    a.handle_key(key(KeyCode::Char('D')));
    match &a.modal {
        Modal::ConfirmClean { count, bytes, permanent, empty_trash, evict_only } => {
            assert_eq!((*count, *bytes), (1, 100));
            assert!(*permanent && !*empty_trash && !*evict_only);
        }
        _ => panic!("expected the confirmation"),
    }
    let r = a.handle_key(key(KeyCode::Char('y')));
    match r.effect {
        Effect::Clean(items, opts) => {
            assert_eq!(items.len(), 1);
            assert_eq!(items[0].real_bytes, 100);
            assert!(opts.permanent);
            assert!(opts.dry_run);
        }
        _ => panic!("expected a clean"),
    }
    assert!(a.cleaning);
    assert!(matches!(a.modal, Modal::Closed));
    assert!(!a.pending_clean_permanent);
}

#[test]
fn clean_with_nothing_selected_opens_nothing() {
    let mut a = app();
    a.results.set_items(Category::Caches, vec![item(1, SafetyTier::Safe)]);
    a.handle_key(key(KeyCode::Char('d')));
    assert!(matches!(a.modal, Modal::Closed));
}

#[test]
fn worker_messages_track_the_scan() {
    let mut a = app();
    a.categories = vec![Category::Caches, Category::Logs];
    let e = a.start_scan();
    assert!(matches!(e, Effect::StartScan(ref c) if c.len() == 2));
    assert!(a.scanning && !a.show_dashboard);
    assert_eq!(a.status_line, "Starting scan\u{2026}");
    a.on_worker(WorkerMsg::ScanStarted(Category::Caches));
    assert_eq!(a.status_line, "Scanning Caches\u{2026}");
    a.on_worker(WorkerMsg::ScanProgress { category: Category::Caches, found: 3, bytes: 1536 });
    assert_eq!(a.status_line, "Scanning Caches \u{2014} 3 items, 1.5 KB");
    let done = a.on_worker(WorkerMsg::ScanDone { category: Category::Caches, items: vec![item(5, SafetyTier::Safe)] });
    assert!(matches!(done, Effect::Nothing));
    assert!(a.scanning);
    assert_eq!(a.results.status[Category::Caches.index()], ScanStatus::Done);
    let last = a.on_worker(WorkerMsg::ScanSkipped { category: Category::Logs, reason: "no access".to_string() });
    assert!(matches!(last, Effect::Nothing));
    assert!(!a.scanning && a.show_dashboard);
    assert_eq!(a.results.status[Category::Logs.index()], ScanStatus::Skipped("no access".to_string()));
}

#[test]
fn clean_done_shows_the_result_and_drops_cleaned_items() {
    let mut a = app();
    let mut sel = item(9, SafetyTier::Safe);
    sel.selected = true;
    a.results.set_items(Category::Caches, vec![sel, item(4, SafetyTier::Safe)]);
    a.cleaning = true;
    a.on_worker(WorkerMsg::CleanDone { freed: 9, failures: vec![] });
    assert!(!a.cleaning);
    assert!(matches!(a.modal, Modal::CleanDone { freed: 9, .. }));
    assert_eq!(a.results.items_for(Category::Caches).len(), 1);
}

#[test]
fn fda_modal_offers_settings_and_control_q_quits() {
    let privilege = PrivilegeInfo { is_root: false, limited: true, full_disk_access: false };
    let mut a = App::new(Config::default(), privilege, Category::ALL.to_vec(), false);
    assert!(matches!(a.modal, Modal::Fda));
    let r = a.handle_key(key(KeyCode::Char('o')));
    assert!(matches!(r.effect, Effect::OpenFdaSettings));
    assert!(a.handle_key(Key { code: KeyCode::Char('q'), ctrl: true }).quit);
    a.handle_key(key(KeyCode::Esc));
    assert!(matches!(a.modal, Modal::Closed));
}

#[test]
fn small_d_then_yes_moves_to_trash_and_only_confirmation_cleans() {
    let mut a = app();
    let mut sel = item(50, SafetyTier::Safe);
    sel.selected = true;
    a.results.set_items(Category::Caches, vec![sel]);
    // `y` with no confirmation open does nothing.
    let r = a.handle_key(key(KeyCode::Char('y')));
    assert!(matches!(r.effect, Effect::Nothing));
    assert!(!a.cleaning);
    // `d` opens a non-permanent confirmation.
    let r = a.handle_key(key(KeyCode::Char('d')));
    assert!(matches!(r.effect, Effect::Nothing));
    assert!(matches!(a.modal, Modal::ConfirmClean { permanent: false, .. }));
    // Any other key keeps it open and cleans nothing.
    let r = a.handle_key(key(KeyCode::Char('x')));
    assert!(matches!(r.effect, Effect::Nothing));
    assert!(matches!(a.modal, Modal::ConfirmClean { .. }));
    let r = a.handle_key(key(KeyCode::Char('Y')));
    match r.effect {
        Effect::Clean(items, opts) => {
            assert_eq!(items.len(), 1);
            assert!(!opts.permanent);
        }
        _ => panic!("expected a clean"),
    }
}

#[test]
fn small_d_on_trash_items_is_permanent() {
    let mut a = app();
    let mut t = ScanItem::new("/Users/x/.Trash/a".to_string(), "a".to_string(), 9, SafetyTier::Safe, Category::Trash);
    t.selected = true;
    a.results.set_items(Category::Trash, vec![t]);
    a.handle_key(key(KeyCode::Char('d')));
    assert!(matches!(a.modal, Modal::ConfirmClean { permanent: true, .. }));
    let r = a.handle_key(key(KeyCode::Char('y')));
    assert!(matches!(r.effect, Effect::Clean(_, ref opts) if opts.permanent));
}

#[test]
fn worker_messages_never_start_a_clean() {
    let mut a = app();
    let mut sel = item(5, SafetyTier::Safe);
    sel.selected = true;
    a.results.set_items(Category::Caches, vec![sel]);
    let msgs = vec![
        WorkerMsg::ScanComplete,
        WorkerMsg::CleanProgress { done: 1, total: 2, freed: 3 },
        WorkerMsg::DockerReady(false),
        WorkerMsg::ScanSkipped { category: Category::Logs, reason: "x".to_string() },
    ];
    for m in msgs {
        let e = a.on_worker(m);
        assert!(!matches!(e, Effect::Clean(..)));
    }
}
