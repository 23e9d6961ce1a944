use mac_cleaner::clean::{
    clean_run, credited_bytes, evict_command, evict_failure, plan_clean, should_delete_permanently, CleanOptions, CleanStep,
    CleanTally,
};
use mac_cleaner::config::DeleteMode;
use mac_cleaner::event::WorkerMsg;
use mac_cleaner::model::{Category, DockerPrune, ItemAction, SafetyTier, ScanItem};

/// Runs the cleaning decisions over `items`; `perform` stands for the work on
/// disk and answers whether each step succeeded.
fn run(items: Vec<ScanItem>, opts: CleanOptions, perform: impl Fn(&CleanStep) -> Result<(), String>) -> (Vec<(usize, usize)>, u64, Vec<String>) {
    let mut tally = CleanTally::new(items.len());
    let mut progress = Vec::new();
    for item in &items {
        let msg = if opts.dry_run {
            tally.record_dry_run(item)
        } else {
            let exists = std::path::Path::new(&item.path).exists();
            let step = plan_clean(item, &opts, exists);
            let outcome = perform(&step).map(|_| credited_bytes(item, &step));
            tally.record(&item.path, outcome)
        };
        if let WorkerMsg::CleanProgress { done, total, .. } = msg {
            progress.push((done, total));
        }
    }
    match tally.finish() {
        WorkerMsg::CleanDone { freed, failures } => (progress, freed, failures),
        _ => unreachable!(),
    }
}

fn item(path: &str, bytes: u64, cat: Category) -> ScanItem {
    ScanItem::new(path.to_string(), "x".to_string(), bytes, SafetyTier::Safe, cat)
}

#[test]
fn trash_category_always_permanent() {
    let item = ScanItem::new("/tmp/x".to_string(), "x".to_string(), 1, SafetyTier::Safe, Category::Trash);
    let opts = CleanOptions { permanent: false, dry_run: false, mode: DeleteMode::Trash };
    assert!(should_delete_permanently(&item, &opts));
}

#[test]
fn given_missing_path_when_cleaning_then_noop_without_error() {
    let item = ScanItem::new(
        "/definitely/not/here/xyz.bin".to_string(),
        "ghost".to_string(),
        4096,
        SafetyTier::Safe,
        Category::Caches,
    );
    let (_, freed, failures) = run(
        vec![item],
        CleanOptions { permanent: true, dry_run: false, mode: DeleteMode::Permanent },
        |_| Ok(()),
    );
    assert_eq!(freed, 0);
    assert!(failures.is_empty());
}

#[test]
fn clean_missing_path_is_a_noop_not_an_error() {
    let item = ScanItem::new(
        "/definitely/not/here/xyz.bin".to_string(),
        "ghost".to_string(),
        4096,
        SafetyTier::Safe,
        Category::Caches,
    );
    let (_, freed, failures) = run(
        vec![item],
        CleanOptions { permanent: true, dry_run: false, mode: DeleteMode::Permanent },
        |_| Ok(()),
    );
    assert_eq!(freed, 0, "missing path frees nothing");
    assert!(failures.is_empty(), "missing path is not a failure");
}

#[test]
fn given_evict_action_when_brctl_fails_then_reports_failure() {
    let item = ScanItem::new(
        "/definitely/not/icloud/file.mov".to_string(),
        "evict".to_string(),
        777,
        SafetyTier::Moderate,
        Category::ICloud,
    )
    .with_action(ItemAction::Evict);
    let (_, freed, failures) = run(
        vec![item],
        CleanOptions { permanent: false, dry_run: false, mode: DeleteMode::Trash },
        |step| match step {
            CleanStep::Evict(_) => Err(evict_failure("")),
            _ => Ok(()),
        },
    );
    assert_eq!(freed, 0);
    assert!(!failures.is_empty(), "expected brctl failure");
    assert_eq!(failures[0], "/definitely/not/icloud/file.mov: brctl evict failed");
}

#[test]
fn dry_run_counts_every_item_and_touches_nothing() {
    let items = vec![item("/a", 100, Category::Caches), item("/b", 250, Category::Logs)];
    let (progress, freed, failures) = run(
        items,
        CleanOptions { permanent: false, dry_run: true, mode: DeleteMode::Trash },
        |_| panic!("a dry run performs nothing"),
    );
    assert_eq!(progress, vec![(1, 2), (2, 2)]);
    assert_eq!(freed, 350);
    assert!(failures.is_empty());
}

#[test]
fn plan_follows_the_action() {
    let opts = CleanOptions { permanent: false, dry_run: false, mode: DeleteMode::Trash };
    let del = item("/Users/nobody-here/file.bin", 10, Category::Caches);
    assert_eq!(plan_clean(&del, &opts, true), CleanStep::MoveToTrash("/Users/nobody-here/file.bin".to_string()));
    assert_eq!(plan_clean(&del, &opts, false), CleanStep::Skip);
    let forced = CleanOptions { permanent: true, ..opts };
    assert_eq!(
        plan_clean(&del, &forced, true),
        CleanStep::RemovePermanently("/Users/nobody-here/file.bin".to_string())
    );
    let trunc = item("/l.log", 10, Category::Logs).with_action(ItemAction::Truncate);
    assert_eq!(plan_clean(&trunc, &opts, false), CleanStep::Truncate("/l.log".to_string()));
    let prune = item("/docker-prune", 10, Category::Caches).with_action(ItemAction::DockerPrune(DockerPrune::Images));
    assert_eq!(plan_clean(&prune, &opts, false), CleanStep::DockerPrune(DockerPrune::Images));
    let empty = item("/t", 10, Category::Trash).with_action(ItemAction::EmptyTrash);
    assert_eq!(plan_clean(&empty, &opts, true), CleanStep::EmptyTrash);
}

#[test]
fn failures_are_listed_with_their_path() {
    let mut tally = CleanTally::new(2);
    tally.record("/a", Ok(10));
    tally.record("/b", Err("denied".to_string()));
    match tally.finish() {
        WorkerMsg::CleanDone { freed, failures } => {
            assert_eq!(freed, 10);
            assert_eq!(failures, vec!["/b: denied".to_string()]);
        }
        _ => unreachable!(),
    }
}

#[test]
fn evict_runs_as_the_invoking_user_when_root() {
    assert_eq!(evict_command("/f", false, None), Ok(vec!["brctl".to_string(), "evict".to_string(), "/f".to_string()]));
    assert_eq!(
        evict_command("/f", true, Some("me")),
        Ok(vec!["sudo".to_string(), "-u".to_string(), "me".to_string(), "brctl".to_string(), "evict".to_string(), "/f".to_string()])
    );
    assert!(evict_command("/f", true, None).is_err());
    assert_eq!(evict_failure("  boom \n"), "boom");
}

#[test]
fn evicted_items_are_never_deleted() {
    let icloud = ScanItem::new("/icloud/big.mov".to_string(), "big.mov".to_string(), 20, SafetyTier::Moderate, Category::ICloud)
        .with_action(ItemAction::Evict);
    for permanent in [false, true] {
        let opts = CleanOptions { permanent, dry_run: false, mode: DeleteMode::Permanent };
        for exists in [false, true] {
            assert_eq!(plan_clean(&icloud, &opts, exists), CleanStep::Evict("/icloud/big.mov".to_string()));
        }
    }
}

#[test]
fn clean_run_ticks_per_item_then_one_done() {
    let items = vec![item("/f/a", 4096, Category::Caches), item("/f/b", 4096, Category::Caches)];
    let msgs = clean_run(&items, false, &vec![Ok(4096), Ok(4096)]);
    assert_eq!(msgs.len(), 3);
    assert!(matches!(msgs[0], WorkerMsg::CleanProgress { done: 1, total: 2, freed: 4096 }));
    assert!(matches!(msgs[1], WorkerMsg::CleanProgress { done: 2, total: 2, freed: 8192 }));
    match &msgs[2] {
        WorkerMsg::CleanDone { freed, failures } => {
            assert_eq!(*freed, 8192);
            assert!(failures.is_empty());
        }
        _ => panic!("expected the done message"),
    }
    let msgs = clean_run(&items, false, &vec![Err("denied".to_string()), Ok(0)]);
    assert!(matches!(msgs[0], WorkerMsg::CleanProgress { done: 1, total: 2, freed: 0 }));
    assert!(matches!(&msgs[2], WorkerMsg::CleanDone { freed: 0, failures } if failures == &vec!["/f/a: denied".to_string()]));
    let none = clean_run(&Vec::new(), false, &Vec::new());
    assert!(matches!(&none[..], [WorkerMsg::CleanDone { freed: 0, failures }] if failures.is_empty()));
}

#[test]
fn clean_dry_run_reports_the_saturating_sum() {
    let items = vec![item("/f/a", 4096, Category::Caches), item("/f/b", u64::MAX, Category::Caches)];
    let msgs = clean_run(&items, true, &Vec::new());
    assert!(matches!(msgs[0], WorkerMsg::CleanProgress { done: 1, total: 2, freed: 4096 }));
    assert!(matches!(&msgs[2], WorkerMsg::CleanDone { freed, failures } if *freed == u64::MAX && failures.is_empty()));
}
