use bina::fetch::{missing_names, FetchSession};
use bina::manifest::{Manifest, ManifestEntry};
use bina::status::InstalledSet;

fn entry(name: &str, exe: &str) -> ManifestEntry {
    ManifestEntry::new(
        String::from(name),
        String::from("owner/project"),
        String::from(exe),
        String::from("--version"),
    )
}

fn installed(names: &[&str]) -> InstalledSet {
    InstalledSet::new(names.iter().map(|n| String::from(*n)).collect())
}

#[test]
fn all_installed_is_a_noop() {
    let m = Manifest::load(vec![entry("rg", "rg"), entry("fd", "fd")]).unwrap();
    let inst = installed(&["rg", "fd"]);
    assert_eq!(missing_names(&m, &inst), Vec::<String>::new());
    let session = FetchSession::begin(&m, &inst);
    let mut installer_invocations = 0;
    if session.next_target().is_some() {
        installer_invocations += 1;
    }
    assert_eq!(installer_invocations, 0);
    assert!(session.summary().is_noop());
}

#[test]
fn only_the_absent_entry_is_fetched() {
    let m = Manifest::load(vec![entry("a", "a"), entry("b", "b")]).unwrap();
    let inst = installed(&["b"]);
    assert_eq!(missing_names(&m, &inst), vec![String::from("a")]);
    let mut session = FetchSession::begin(&m, &inst);
    let mut invoked: Vec<String> = Vec::new();
    while let Some(name) = session.next_target().cloned() {
        invoked.push(name);
        session.record_success();
    }
    assert_eq!(invoked, vec![String::from("a")]);
    let summary = session.summary();
    assert_eq!(summary.succeeded, vec![String::from("a")]);
    assert_eq!(summary.failed, None);
    assert_eq!(summary.not_attempted, Vec::<String>::new());
}

#[test]
fn missing_entries_keep_manifest_order() {
    let m = Manifest::load(vec![
        entry("a", "a"),
        entry("b", "b"),
        entry("c", "c"),
        entry("d", "d"),
    ])
    .unwrap();
    let inst = installed(&["b"]);
    assert_eq!(
        missing_names(&m, &inst),
        vec![String::from("a"), String::from("c"), String::from("d")]
    );
}

#[test]
fn a_failed_install_aborts_the_rest() {
    let m = Manifest::load(vec![entry("a", "a"), entry("b", "b"), entry("c", "c")]).unwrap();
    let inst = installed(&[]);
    let mut session = FetchSession::begin(&m, &inst);
    let mut attempts = 0;
    while let Some(name) = session.next_target().cloned() {
        attempts += 1;
        let fails = name == "b";
        if fails {
            session.record_failure();
        } else {
            session.record_success();
        }
    }
    assert_eq!(attempts, 2);
    let summary = session.summary();
    assert_eq!(summary.succeeded, vec![String::from("a")]);
    assert_eq!(summary.failed, Some(String::from("b")));
    assert_eq!(summary.not_attempted, vec![String::from("c")]);
    assert!(!summary.is_noop());
}

#[test]
fn missing_names_agree_with_the_report() {
    let m = Manifest::load(vec![entry("a", "a"), entry("b", "b"), entry("c", "c")]).unwrap();
    let inst = installed(&["b"]);
    let outputs = vec![None, None, None];
    let bodies = vec![None, None, None];
    let report = bina::reconcile::reconcile(&m, &inst, &outputs, &bodies, false);
    let absent: Vec<String> = report
        .records
        .iter()
        .filter(|r| !r.installed)
        .map(|r| r.name.clone())
        .collect();
    assert_eq!(absent, missing_names(&m, &inst));
}

#[test]
fn duplicate_directory_listing_counts_entries_once() {
    let m = Manifest::load(vec![entry("a", "a"), entry("b", "b")]).unwrap();
    let inst = installed(&["a", "a"]);
    assert_eq!(missing_names(&m, &inst), vec![String::from("b")]);
}
