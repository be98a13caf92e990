//! Status values: the installed-set snapshot, per-entry probe outcomes, and
//! the per-entry status records a reconciliation run reports.

use vstd::prelude::*;

verus! {

/// The executable names observed in the target directory, taken once per run
/// before any probing.
#[derive(Debug)]
pub struct InstalledSet {
    pub names: Vec<String>,
}

impl InstalledSet {
    /// The snapshot holds `name`.
    pub open spec fn spec_contains(&self, name: Seq<char>) -> bool {
        exists|k: int| 0 <= k < self.names@.len() && self.names@[k]@ == name
    }

    pub fn new(names: Vec<String>) -> (r: Self)
        ensures
            r.names@ == names@,
    {
        InstalledSet { names }
    }

    /// Set membership of an executable name.
    pub fn contains(&self, name: &String) -> (b: bool)
        ensures
            b == self.spec_contains(name@),
    {
        let n = self.names.len();
        let mut i: usize = 0;
        while i < n
            invariant
                n == self.names@.len(),
                i <= n,
                forall|k: int| 0 <= k < i ==> self.names@[k]@ != name@,
            decreases n - i,
        {
            if self.names[i] == *name {
                return true;
            }
            i = i + 1;
        }
        false
    }
}

/// What the local probe of one entry found.
#[derive(Debug)]
pub enum LocalStatus {
    /// The executable is not in the installed set.
    Absent,
    /// The executable is installed and reported the held version.
    Present(String),
    /// The executable is installed, but its invocation failed, timed out, or
    /// printed nothing a version could be read from.
    PresentUnknownVersion,
}

/// The pair a local status stands for: whether the entry is installed, and
/// the version read from it, if any.
pub open spec fn local_status_view(s: LocalStatus) -> (bool, Option<Seq<char>>) {
    match s {
        LocalStatus::Absent => (false, None),
        LocalStatus::Present(v) => (true, Some(v@)),
        LocalStatus::PresentUnknownVersion => (true, None),
    }
}

/// What the remote probe of one entry found.
#[derive(Debug)]
pub enum RemoteStatus {
    /// The release lookup succeeded; the held text is the published tag.
    Found(String),
    /// The release lookup failed: network failure, an unsuccessful response,
    /// or a payload without a tag. Never aborts the run.
    Unavailable,
}

/// The tag a remote status carries, if any.
pub open spec fn remote_status_view(s: RemoteStatus) -> Option<Seq<char>> {
    match s {
        RemoteStatus::Found(tag) => Some(tag@),
        RemoteStatus::Unavailable => None,
    }
}

/// The per-entry result of one reconciliation run: a value, produced exactly
/// once per entry and never mutated.
#[derive(Debug)]
pub struct StatusRecord {
    /// The manifest entry the record is about.
    pub name: String,
    /// Whether the entry's executable is in the installed set.
    pub installed: bool,
    /// The version the installed executable reported; absent when the entry
    /// is not installed or no version could be read.
    pub local_version: Option<String>,
    /// The latest published version; present only when a remote lookup was
    /// requested and succeeded with a readable version.
    pub latest_version: Option<String>,
}

impl StatusRecord {
    /// The local version as rendered: the version itself, or the "-" sentinel
    /// for "unknown or not applicable".
    pub fn local_version_text(&self) -> (r: String)
        ensures
            r@ == match self.local_version {
                Some(v) => v@,
                None => "-"@,
            },
    {
        match &self.local_version {
            Some(v) => v.clone(),
            None => String::from_str("-"),
        }
    }

    /// The latest published version as rendered: the version itself, or the
    /// "-" sentinel.
    pub fn latest_version_text(&self) -> (r: String)
        ensures
            r@ == match self.latest_version {
                Some(v) => v@,
                None => "-"@,
            },
    {
        match &self.latest_version {
            Some(v) => v.clone(),
            None => String::from_str("-"),
        }
    }
}

/// One reconciliation run's result: one record per manifest entry.
#[derive(Debug)]
pub struct Report {
    pub records: Vec<StatusRecord>,
}

} // verus!
