//! The reconciler: combines, for every manifest entry, the local probe's
//! outcome and (when freshness was asked for) the remote probe's outcome
//! into one status record, and aggregates the records into a report.
//!
//! The caller performs the probing itself — one subprocess invocation per
//! installed entry, one HTTP request per entry when freshness is asked for —
//! and hands the captured outcomes over, aligned with the manifest entries.
//! A failed probe arrives as nothing and is downgraded to a sentinel field;
//! it never drops the entry's record and never aborts the run.

use vstd::prelude::*;

use crate::manifest::{Manifest, ManifestEntry};
use crate::remote::{json_tag_name, remote_status_of, remote_version_of};
use crate::status::{
    local_status_view, InstalledSet, LocalStatus, Report, StatusRecord,
};
use crate::version::{extract_version, spec_extract};

verus! {

/// The version an entry's record reports as installed: nothing when the
/// entry is absent, otherwise the version token of the captured subprocess
/// output, when there is one.
pub open spec fn spec_local_version(installed: bool, output: Option<Seq<char>>) -> Option<
    Seq<char>,
> {
    if installed {
        match output {
            Some(o) => spec_extract(o),
            None => None,
        }
    } else {
        None
    }
}

/// The version an entry's record reports as latest: nothing unless freshness
/// was asked for, the release lookup produced a payload with a tag, and the
/// tag holds a version token.
pub open spec fn spec_latest_version(check_latest: bool, body: Option<Seq<char>>) -> Option<
    Seq<char>,
> {
    if check_latest {
        match body {
            Some(b) => match json_tag_name(b) {
                Some(tag) => spec_extract(tag),
                None => None,
            },
            None => None,
        }
    } else {
        None
    }
}

/// The record reconciliation owes entry `e`, given the installed set, the
/// probe outcomes for `e`, and whether freshness was asked for.
pub open spec fn record_matches(
    rec: StatusRecord,
    e: ManifestEntry,
    inst: InstalledSet,
    output: Option<Seq<char>>,
    body: Option<Seq<char>>,
    check_latest: bool,
) -> bool {
    &&& rec.name@ == e.name@
    &&& rec.installed == inst.spec_contains(e.exe@)
    &&& rec.local_version.deep_view() == spec_local_version(inst.spec_contains(e.exe@), output)
    &&& rec.latest_version.deep_view() == spec_latest_version(check_latest, body)
}

/// An entry whose executable the installed set lacks always reconciles to
/// "not installed" with no local version, whatever output was captured for
/// it and whether or not a remote lookup was asked for.
pub proof fn lemma_absent_entry_record(
    rec: StatusRecord,
    e: ManifestEntry,
    inst: InstalledSet,
    output: Option<Seq<char>>,
    body: Option<Seq<char>>,
    check_latest: bool,
)
    requires
        record_matches(rec, e, inst, output, body, check_latest),
        !inst.spec_contains(e.exe@),
    ensures
        !rec.installed,
        rec.local_version is None,
{
}

/// Turns one entry's probe outcome into its local status: an entry outside
/// the installed set is absent whatever was captured; an installed entry is
/// present, with the version token of the captured output when the
/// invocation succeeded and printed one.
pub fn local_status_of(installed: bool, output: &Option<String>) -> (r: LocalStatus)
    ensures
        local_status_view(r) == (installed, spec_local_version(installed, output.deep_view())),
{
    if !installed {
        LocalStatus::Absent
    } else {
        match output {
            Some(o) => match extract_version(o.as_str()) {
                Some(v) => LocalStatus::Present(v),
                None => LocalStatus::PresentUnknownVersion,
            },
            None => LocalStatus::PresentUnknownVersion,
        }
    }
}

/// Combines one entry's local and remote outcomes into its status record.
pub fn reconcile_entry(
    entry: &ManifestEntry,
    installed: bool,
    output: &Option<String>,
    body: &Option<String>,
    check_latest: bool,
) -> (rec: StatusRecord)
    ensures
        rec.name@ == entry.name@,
        rec.installed == installed,
        rec.local_version.deep_view() == spec_local_version(installed, output.deep_view()),
        rec.latest_version.deep_view() == spec_latest_version(check_latest, body.deep_view()),
{
    let local = local_status_of(installed, output);
    let local_version = match local {
        LocalStatus::Present(v) => Some(v),
        _ => None,
    };
    let latest_version = if check_latest {
        let status = remote_status_of(body);
        remote_version_of(&status)
    } else {
        None
    };
    StatusRecord { name: entry.name.clone(), installed, local_version, latest_version }
}

/// Reconciles the whole manifest: one record per entry, in manifest order,
/// each combining the entry's probe outcomes per `record_matches`. The
/// report never drops or duplicates an entry, whatever the probes did; on a
/// well-formed manifest the record names are pairwise distinct.
pub fn reconcile(
    manifest: &Manifest,
    installed: &InstalledSet,
    outputs: &Vec<Option<String>>,
    bodies: &Vec<Option<String>>,
    check_latest: bool,
) -> (r: Report)
    requires
        outputs@.len() == manifest.entries@.len(),
        bodies@.len() == manifest.entries@.len(),
    ensures
        r.records@.len() == manifest.entries@.len(),
        forall|k: int|
            0 <= k < r.records@.len() ==> record_matches(
                #[trigger] r.records@[k],
                manifest.entries@[k],
                *installed,
                outputs.deep_view()[k],
                bodies.deep_view()[k],
                check_latest,
            ),
        manifest.wf() ==> forall|i: int, j: int|
            0 <= i < j < r.records@.len() ==> r.records@[i].name@ != r.records@[j].name@,
{
    let n = manifest.len();
    let mut records: Vec<StatusRecord> = Vec::new();
    let mut k: usize = 0;
    while k < n
        invariant
            n == manifest.entries@.len(),
            outputs@.len() == n,
            bodies@.len() == n,
            k <= n,
            records@.len() == k,
            forall|p: int|
                0 <= p < k ==> record_matches(
                    #[trigger] records@[p],
                    manifest.entries@[p],
                    *installed,
                    outputs.deep_view()[p],
                    bodies.deep_view()[p],
                    check_latest,
                ),
        decreases n - k,
    {
        let entry = &manifest.entries[k];
        let is_installed = installed.contains(&entry.exe);
        let rec = reconcile_entry(entry, is_installed, &outputs[k], &bodies[k], check_latest);
        records.push(rec);
        k = k + 1;
    }
    Report { records }
}

} // verus!
