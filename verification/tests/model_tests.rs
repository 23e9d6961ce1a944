use mac_cleaner::model::{staleness_factor, Category, SafetyTier, ScanItem, ScanResults};

fn item(bytes: u64, tier: SafetyTier) -> ScanItem {
    ScanItem::new("/x".to_string(), "x".to_string(), bytes, tier, Category::Caches)
}

#[test]
fn category_slug_roundtrips() {
    for cat in Category::ALL {
        assert_eq!(Category::from_slug(cat.slug()), Some(cat));
    }
    assert_eq!(Category::from_slug("nope"), None);
}

#[test]
fn staleness_increases_with_age() {
    assert!(staleness_factor(0) < staleness_factor(10));
    assert!(staleness_factor(10) < staleness_factor(60));
    assert!(staleness_factor(60) < staleness_factor(365));
}

#[test]
fn safe_outranks_risky_at_equal_size() {
    let safe = item(1000, SafetyTier::Safe);
    let risky = item(1000, SafetyTier::Risky);
    assert!(safe.priority() > risky.priority());
}

#[test]
fn keeper_is_not_selectable() {
    let mut it = item(1000, SafetyTier::Safe);
    assert!(it.selectable());
    it.is_keeper = true;
    assert!(!it.selectable());
}

#[test]
fn ingest_sorts_by_priority_and_preselects_safe() {
    let mut r = ScanResults::new();
    let mut keeper = item(4000, SafetyTier::Safe);
    keeper.is_keeper = true;
    r.ingest(
        Category::Caches,
        vec![
            item(10, SafetyTier::Safe),
            item(5000, SafetyTier::Safe),
            item(6000, SafetyTier::Risky),
            keeper,
        ],
    );
    let items = r.items_for(Category::Caches);

    for pair in items.windows(2) {
        assert!(pair[0].priority() >= pair[1].priority());
    }
    assert_eq!(items[0].real_bytes, 5000);

    let selected: Vec<u64> = items
        .iter()
        .filter(|i| i.selected)
        .map(|i| i.real_bytes)
        .collect();
    assert!(selected.contains(&5000));
    assert!(selected.contains(&10));
    assert!(!selected.contains(&6000));
    assert!(!selected.contains(&4000));
}

#[test]
fn selected_bytes_counts_only_selectable_selected() {
    let mut r = ScanResults::new();
    let mut a = item(100, SafetyTier::Safe);
    a.selected = true;
    let mut keeper = item(200, SafetyTier::Safe);
    keeper.selected = true;
    keeper.is_keeper = true;
    let b = item(300, SafetyTier::Safe);
    r.set_items(Category::Caches, vec![a, keeper, b]);
    assert_eq!(r.selected_items().len(), 1);
    assert_eq!(r.selected_bytes(), 100);
}

#[test]
fn total_reclaimable_sums_all_categories() {
    let mut r = ScanResults::new();
    r.set_items(Category::Caches, vec![item(100, SafetyTier::Safe)]);
    r.set_items(Category::Logs, vec![item(250, SafetyTier::Safe)]);
    assert_eq!(r.total_reclaimable(), 350);
}

#[test]
fn priority_is_bytes_times_tier_times_staleness() {
    // 1000 bytes, Moderate (0.7), 45 days old (1.2): 1000 * 7 * 12 hundredths.
    let it = item(1000, SafetyTier::Moderate).with_age(45);
    assert_eq!(it.priority(), 84_000);
    assert_eq!(staleness_factor(6), 8);
    assert_eq!(staleness_factor(7), 10);
    assert_eq!(staleness_factor(89), 12);
    assert_eq!(staleness_factor(90), 15);
}

#[test]
fn ingest_keeps_scan_order_among_equal_priorities() {
    let mut r = ScanResults::new();
    let mut first = item(500, SafetyTier::Moderate);
    first.label = "first".to_string();
    let mut second = item(500, SafetyTier::Moderate);
    second.label = "second".to_string();
    r.ingest(Category::Logs, vec![first, second]);
    let items = r.items_for(Category::Logs);
    assert_eq!(items[0].label, "first");
    assert_eq!(items[1].label, "second");
    assert!(!items[0].selected && !items[1].selected);
}

#[test]
fn totals_fit_reports_overflow() {
    let mut r = ScanResults::new();
    r.set_items(Category::Caches, vec![item(u64::MAX, SafetyTier::Safe)]);
    assert!(r.totals_fit());
    r.set_items(Category::Logs, vec![item(1, SafetyTier::Safe)]);
    assert!(!r.totals_fit());
}
