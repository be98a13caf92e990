use bina::manifest::{Manifest, ManifestEntry};
use bina::reconcile::{local_status_of, reconcile, reconcile_entry};
use bina::remote::{release_url, remote_status_of, remote_version_of};
use bina::status::{InstalledSet, LocalStatus, RemoteStatus};

fn entry(name: &str, repo: &str, exe: &str, version_arg: &str) -> ManifestEntry {
    ManifestEntry::new(
        String::from(name),
        String::from(repo),
        String::from(exe),
        String::from(version_arg),
    )
}

fn installed(names: &[&str]) -> InstalledSet {
    InstalledSet::new(names.iter().map(|n| String::from(*n)).collect())
}

#[test]
fn reconcile_keeps_every_entry_once() {
    let m = Manifest::load(vec![
        entry("rg", "BurntSushi/ripgrep", "rg", "--version"),
        entry("fd", "sharkdp/fd", "fd", "--version"),
        entry("bat", "sharkdp/bat", "bat", "--version"),
    ])
    .unwrap();
    let inst = installed(&["fd"]);
    let outputs = vec![None, Some(String::from("fd 10.2.0")), None];
    let bodies = vec![None, None, None];
    let report = reconcile(&m, &inst, &outputs, &bodies, false);
    assert_eq!(report.records.len(), 3);
    assert_eq!(report.records[0].name, "rg");
    assert_eq!(report.records[1].name, "fd");
    assert_eq!(report.records[2].name, "bat");
    assert!(!report.records[0].installed);
    assert!(report.records[1].installed);
    assert_eq!(report.records[1].local_version, Some(String::from("10.2.0")));
    assert!(!report.records[2].installed);
}

#[test]
fn absent_entry_is_sentinel_regardless_of_remote_setting() {
    let m = Manifest::load(vec![entry("rg", "BurntSushi/ripgrep", "rg", "--version")]).unwrap();
    let inst = installed(&[]);
    for check_latest in [false, true] {
        let outputs = vec![Some(String::from("rg 14.1.0"))];
        let bodies = vec![None];
        let report = reconcile(&m, &inst, &outputs, &bodies, check_latest);
        assert_eq!(report.records.len(), 1);
        assert!(!report.records[0].installed);
        assert_eq!(report.records[0].local_version, None);
        assert_eq!(report.records[0].local_version_text(), "-");
    }
}

#[test]
fn installed_entry_with_unreadable_output_keeps_its_row() {
    let m = Manifest::load(vec![entry("rg", "BurntSushi/ripgrep", "rg", "--version")]).unwrap();
    let inst = installed(&["rg"]);
    let outputs = vec![Some(String::from("mystery build"))];
    let bodies = vec![None];
    let report = reconcile(&m, &inst, &outputs, &bodies, false);
    assert!(report.records[0].installed);
    assert_eq!(report.records[0].local_version, None);
    assert_eq!(report.records[0].local_version_text(), "-");
}

#[test]
fn installed_entry_with_failed_invocation_keeps_its_row() {
    let m = Manifest::load(vec![entry("rg", "BurntSushi/ripgrep", "rg", "--version")]).unwrap();
    let inst = installed(&["rg"]);
    let report = reconcile(&m, &inst, &vec![None], &vec![None], false);
    assert!(report.records[0].installed);
    assert_eq!(report.records[0].local_version, None);
}

#[test]
fn reconcile_reads_the_latest_tag_from_the_payload() {
    let m = Manifest::load(vec![entry("rg", "BurntSushi/ripgrep", "rg", "--version")]).unwrap();
    let inst = installed(&[]);
    let body = String::from("{\"name\":\"release 9.9.9\",\"tag_name\":\"v1.4.0\"}");
    let report = reconcile(&m, &inst, &vec![None], &vec![Some(body)], true);
    assert_eq!(report.records[0].latest_version, Some(String::from("1.4.0")));
    assert_eq!(report.records[0].latest_version_text(), "1.4.0");
}

#[test]
fn reconcile_without_freshness_has_no_latest() {
    let m = Manifest::load(vec![entry("rg", "BurntSushi/ripgrep", "rg", "--version")]).unwrap();
    let inst = installed(&[]);
    let body = String::from("{\"tag_name\":\"v1.4.0\"}");
    let report = reconcile(&m, &inst, &vec![None], &vec![Some(body)], false);
    assert_eq!(report.records[0].latest_version, None);
    assert_eq!(report.records[0].latest_version_text(), "-");
}

#[test]
fn release_url_frames_the_repository() {
    assert_eq!(
        release_url("BurntSushi/ripgrep"),
        "https://api.github.com/repos/BurntSushi/ripgrep/releases/latest"
    );
}

#[test]
fn remote_status_finds_the_tag() {
    let body = Some(String::from("{\"tag_name\":\"v2.7.1\"}"));
    match remote_status_of(&body) {
        RemoteStatus::Found(tag) => assert_eq!(tag, "v2.7.1"),
        RemoteStatus::Unavailable => panic!("a payload with a tag must be found"),
    }
}

#[test]
fn remote_status_without_payload_is_unavailable() {
    assert!(matches!(remote_status_of(&None), RemoteStatus::Unavailable));
}

#[test]
fn remote_status_on_malformed_payload_is_unavailable() {
    let not_json = Some(String::from("tag_name: v1.4.0"));
    assert!(matches!(remote_status_of(&not_json), RemoteStatus::Unavailable));
    let no_tag = Some(String::from("{\"name\":\"v1.4.0\"}"));
    assert!(matches!(remote_status_of(&no_tag), RemoteStatus::Unavailable));
    let tag_not_text = Some(String::from("{\"tag_name\":3}"));
    assert!(matches!(remote_status_of(&tag_not_text), RemoteStatus::Unavailable));
}

#[test]
fn remote_version_normalizes_the_found_tag() {
    let v = remote_version_of(&RemoteStatus::Found(String::from("v1.4.0")));
    assert_eq!(v, Some(String::from("1.4.0")));
    let none = remote_version_of(&RemoteStatus::Found(String::from("latest")));
    assert_eq!(none, None);
    assert_eq!(remote_version_of(&RemoteStatus::Unavailable), None);
}

#[test]
fn local_status_maps_each_outcome() {
    assert!(matches!(local_status_of(false, &Some(String::from("x 1.0.0"))), LocalStatus::Absent));
    match local_status_of(true, &Some(String::from("x 1.0.0"))) {
        LocalStatus::Present(v) => assert_eq!(v, "1.0.0"),
        _ => panic!("an installed entry with readable output is present"),
    }
    assert!(matches!(local_status_of(true, &None), LocalStatus::PresentUnknownVersion));
    assert!(matches!(
        local_status_of(true, &Some(String::from("no version"))),
        LocalStatus::PresentUnknownVersion
    ));
}

#[test]
fn reconcile_entry_combines_both_probes() {
    let e = entry("rg", "BurntSushi/ripgrep", "rg", "--version");
    let output = Some(String::from("ripgrep 14.1.0"));
    let body = Some(String::from("{\"tag_name\":\"14.1.1\"}"));
    let rec = reconcile_entry(&e, true, &output, &body, true);
    assert_eq!(rec.name, "rg");
    assert!(rec.installed);
    assert_eq!(rec.local_version, Some(String::from("14.1.0")));
    assert_eq!(rec.latest_version, Some(String::from("14.1.1")));
}
