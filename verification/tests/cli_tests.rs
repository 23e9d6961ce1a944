use mac_cleaner::cli::Cli;
use mac_cleaner::config::DeleteMode;
use mac_cleaner::headless::{clean_plan, failure_line, freed_line, report_lines, scan_categories, Collector};
use mac_cleaner::event::WorkerMsg;
use mac_cleaner::model::{Category, SafetyTier, ScanItem};

#[test]
fn cli_parse_categories_trims_and_drops_invalid() {
    let cats = Cli::parse_categories("caches, logs , nope, duplicates");
    assert_eq!(cats, vec![Category::Caches, Category::Logs, Category::Duplicates]);
    assert!(Cli::parse_categories("").is_empty());
    assert!(Cli::parse_categories("bogus,,").is_empty());
}

#[test]
fn given_category_csv_when_parse_then_trims_and_drops_invalid() {
    let cats = Cli::parse_categories("caches, logs , dev, nope, duplicates");
    assert_eq!(
        cats,
        vec![Category::Caches, Category::Logs, Category::DevArtifacts, Category::Duplicates]
    );
    assert!(Cli::parse_categories("").is_empty());
    assert!(Cli::parse_categories("bogus,,").is_empty());
}

#[test]
fn headless_scan_defaults_to_every_category() {
    assert_eq!(scan_categories(None), Category::ALL.to_vec());
    assert_eq!(scan_categories(Some("nope")), Category::ALL.to_vec());
    assert_eq!(scan_categories(Some("trash,icloud")), vec![Category::Trash, Category::ICloud]);
}

#[test]
fn headless_collect_report_and_plan() {
    let mut c = Collector::new();
    let item = ScanItem::new("/c/x".to_string(), "x".to_string(), 2048, SafetyTier::Safe, Category::Caches);
    c.on_message(WorkerMsg::ScanStarted(Category::Caches));
    assert!(!c.finished(2));
    c.on_message(WorkerMsg::ScanDone { category: Category::Caches, items: vec![item] });
    c.on_message(WorkerMsg::ScanSkipped { category: Category::Logs, reason: "r".to_string() });
    assert!(c.finished(2));
    let lines = report_lines(&c.results, &vec![Category::Caches, Category::Logs]);
    assert_eq!(
        lines,
        vec![
            "\n## Caches".to_string(),
            "    2.0 KB  x  [safe]".to_string(),
            "\n## Logs".to_string(),
            "\nTotal reclaimable: 2.0 KB".to_string(),
        ]
    );
    let (items, opts) = clean_plan(&c.results, true, false, DeleteMode::Trash).unwrap();
    assert_eq!(items.len(), 1);
    assert!(opts.permanent && !opts.dry_run);
    assert_eq!(opts.mode, DeleteMode::Permanent);
    assert_eq!(freed_line(2048), "Freed 2.0 KB");
    assert_eq!(failure_line("x: no"), "  error: x: no");
}
