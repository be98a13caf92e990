//! The fetch-missing orchestration: which entries need an install, and the
//! bookkeeping of driving the installer over them sequentially.
//!
//! The installer itself is an external collaborator: the caller performs
//! each install and reports back whether it succeeded. Installs run one at
//! a time, in manifest order, and the whole operation aborts on the first
//! failure — remaining entries are reported as not attempted rather than
//! tried best-effort.

use vstd::prelude::*;

use crate::manifest::{Manifest, ManifestEntry};
use crate::status::InstalledSet;

verus! {

/// The names of the entries whose executable the installed set lacks, in
/// manifest order.
pub open spec fn spec_missing(entries: Seq<ManifestEntry>, inst: InstalledSet) -> Seq<Seq<char>>
    decreases entries.len(),
{
    if entries.len() == 0 {
        Seq::empty()
    } else {
        let prefix = spec_missing(entries.drop_last(), inst);
        if inst.spec_contains(entries.last().exe@) {
            prefix
        } else {
            prefix.push(entries.last().name@)
        }
    }
}

/// A name is missing exactly when some entry carries it and its executable
/// is not installed.
pub proof fn lemma_missing_exact(entries: Seq<ManifestEntry>, inst: InstalledSet)
    ensures
        forall|n: Seq<char>|
            #[trigger] spec_missing(entries, inst).contains(n) <==> exists|k: int|
                0 <= k < entries.len() && entries[k].name@ == n && !inst.spec_contains(
                    entries[k].exe@,
                ),
    decreases entries.len(),
{
    if entries.len() > 0 {
        lemma_missing_exact(entries.drop_last(), inst);
        let prefix = spec_missing(entries.drop_last(), inst);
        let last = entries.last();
        assert forall|n: Seq<char>| #[trigger]
            spec_missing(entries, inst).contains(n) implies exists|k: int|
            0 <= k < entries.len() && entries[k].name@ == n && !inst.spec_contains(
                entries[k].exe@,
            ) by {
            if prefix.contains(n) {
                let k = choose|k: int|
                    0 <= k < entries.drop_last().len() && entries.drop_last()[k].name@ == n
                        && !inst.spec_contains(entries.drop_last()[k].exe@);
                assert(entries[k] == entries.drop_last()[k]);
            } else {
                assert(!inst.spec_contains(last.exe@) && last.name@ == n);
                assert(entries[entries.len() - 1] == last);
            }
        }
        assert forall|n: Seq<char>|
            exists|k: int|
                0 <= k < entries.len() && entries[k].name@ == n && !inst.spec_contains(
                    entries[k].exe@,
                ) implies #[trigger] spec_missing(entries, inst).contains(n) by {
            let k = choose|k: int|
                0 <= k < entries.len() && entries[k].name@ == n && !inst.spec_contains(
                    entries[k].exe@,
                );
            if k < entries.len() - 1 {
                assert(entries.drop_last()[k] == entries[k]);
                assert(prefix.contains(n));
                if inst.spec_contains(last.exe@) {
                } else {
                    assert(spec_missing(entries, inst) == prefix.push(last.name@));
                    let w = choose|w: int| 0 <= w < prefix.len() && prefix[w] == n;
                    assert(prefix.push(last.name@)[w] == n);
                }
            } else {
                assert(spec_missing(entries, inst) == prefix.push(last.name@));
                assert(prefix.push(last.name@).last() == n);
            }
        }
    }
}

/// When every entry's executable is installed, nothing is missing: a fetch
/// of the missing entries makes no install attempt at all.
pub proof fn lemma_all_installed_nothing_missing(entries: Seq<ManifestEntry>, inst: InstalledSet)
    requires
        forall|k: int| 0 <= k < entries.len() ==> inst.spec_contains(#[trigger] entries[k].exe@),
    ensures
        spec_missing(entries, inst).len() == 0,
    decreases entries.len(),
{
    if entries.len() > 0 {
        assert(entries.last() == entries[entries.len() - 1]);
        assert forall|k: int| 0 <= k < entries.drop_last().len() implies inst.spec_contains(
            #[trigger] entries.drop_last()[k].exe@,
        ) by {
            assert(entries.drop_last()[k] == entries[k]);
        }
        lemma_all_installed_nothing_missing(entries.drop_last(), inst);
    }
}

/// Computes the names of the entries to install: exactly the missing ones,
/// in manifest order.
pub fn missing_names(manifest: &Manifest, installed: &InstalledSet) -> (r: Vec<String>)
    ensures
        r.deep_view() == spec_missing(manifest.entries@, *installed),
{
    let n = manifest.len();
    let mut r: Vec<String> = Vec::new();
    let mut i: usize = 0;
    while i < n
        invariant
            n == manifest.entries@.len(),
            i <= n,
            r.deep_view() == spec_missing(manifest.entries@.take(i as int), *installed),
        decreases n - i,
    {
        let entry = &manifest.entries[i];
        proof {
            assert(manifest.entries@.take(i + 1).drop_last() =~= manifest.entries@.take(i as int));
            assert(manifest.entries@.take(i + 1).last() == manifest.entries@[i as int]);
        }
        if !installed.contains(&entry.exe) {
            let ghost before = r.deep_view();
            r.push(entry.name.clone());
            proof {
                assert(r.deep_view() =~= before.push(entry.name@));
            }
        }
        i = i + 1;
    }
    proof {
        assert(manifest.entries@.take(n as int) =~= manifest.entries@);
    }
    r
}

/// How one fetch-missing run ended: which entries were installed, which one
/// failed (if any), and which were left unattempted because of the failure.
#[derive(Debug)]
pub struct OutcomeSummary {
    /// Names installed successfully, in the order they were attempted.
    pub succeeded: Vec<String>,
    /// The name whose install failed, when one did; the run aborted there.
    pub failed: Option<String>,
    /// Names never attempted because an earlier install failed.
    pub not_attempted: Vec<String>,
}

impl OutcomeSummary {
    /// The run had nothing to do: no install was attempted or owed.
    pub open spec fn spec_is_noop(&self) -> bool {
        self.succeeded@.len() == 0 && self.failed is None && self.not_attempted@.len() == 0
    }

    pub fn is_noop(&self) -> (b: bool)
        ensures
            b == self.spec_is_noop(),
    {
        self.succeeded.len() == 0 && self.failed.is_none() && self.not_attempted.len() == 0
    }
}

/// One sequential fetch-missing run over a manifest: the plan is the missing
/// entries in manifest order; the caller installs the current target, then
/// reports success or failure back. A failure aborts the run.
#[derive(Debug)]
pub struct FetchSession {
    /// The names still to install, in order; fixed at the start of the run.
    pub plan: Vec<String>,
    /// How many plan entries have been installed successfully.
    pub done: usize,
    /// The name whose install failed, when one did.
    pub failed: Option<String>,
}

impl FetchSession {
    /// The session's bookkeeping is consistent with its plan.
    pub open spec fn wf(&self) -> bool {
        &&& self.done <= self.plan@.len()
        &&& match self.failed {
            Some(n) => self.done < self.plan@.len() && n@ == self.plan@[self.done as int]@,
            None => true,
        }
    }

    /// Starts a run: the plan is exactly the missing entries, nothing is
    /// done yet and nothing has failed.
    pub fn begin(manifest: &Manifest, installed: &InstalledSet) -> (r: Self)
        ensures
            r.wf(),
            r.plan.deep_view() == spec_missing(manifest.entries@, *installed),
            r.done == 0,
            r.failed is None,
    {
        let plan = missing_names(manifest, installed);
        FetchSession { plan, done: 0, failed: None }
    }

    /// The next name to install: the first not yet done, unless the run is
    /// complete or has aborted on a failure.
    pub fn next_target(&self) -> (r: Option<&String>)
        requires
            self.wf(),
        ensures
            match r {
                Some(n) => self.failed is None && self.done < self.plan@.len() && n@
                    == self.plan@[self.done as int]@,
                None => self.failed is Some || self.done == self.plan@.len(),
            },
    {
        if self.failed.is_some() {
            None
        } else if self.done < self.plan.len() {
            Some(&self.plan[self.done])
        } else {
            None
        }
    }

    /// Records that the current target was installed.
    pub fn record_success(&mut self)
        requires
            old(self).wf(),
            old(self).failed is None,
            old(self).done < old(self).plan@.len(),
        ensures
            final(self).wf(),
            final(self).plan == old(self).plan,
            final(self).failed is None,
            final(self).done == old(self).done + 1,
    {
        let n = self.plan.len();
        assert(self.done < n);
        self.done = self.done + 1;
    }

    /// Records that installing the current target failed: the run aborts and
    /// every later plan entry stays unattempted.
    pub fn record_failure(&mut self)
        requires
            old(self).wf(),
            old(self).failed is None,
            old(self).done < old(self).plan@.len(),
        ensures
            final(self).wf(),
            final(self).plan == old(self).plan,
            final(self).done == old(self).done,
            match final(self).failed {
                Some(n) => n@ == old(self).plan@[old(self).done as int]@,
                None => false,
            },
    {
        self.failed = Some(self.plan[self.done].clone());
    }

    /// Summarizes the run: the successfully installed prefix of the plan,
    /// the failing name if any, and the unattempted rest.
    pub fn summary(&self) -> (r: OutcomeSummary)
        requires
            self.wf(),
        ensures
            r.succeeded.deep_view() == self.plan.deep_view().take(self.done as int),
            r.failed.deep_view() == self.failed.deep_view(),
            r.not_attempted.deep_view() == self.plan.deep_view().skip(
                self.done + (if self.failed is Some { 1int } else { 0int }),
            ),
            self.plan@.len() == 0 ==> r.spec_is_noop(),
    {
        let mut succeeded: Vec<String> = Vec::new();
        let mut i: usize = 0;
        while i < self.done
            invariant
                self.done <= self.plan@.len(),
                i <= self.done,
                succeeded.deep_view() =~= self.plan.deep_view().take(self.done as int).take(
                    i as int,
                ),
            decreases self.done - i,
        {
            let ghost before = succeeded.deep_view();
            succeeded.push(self.plan[i].clone());
            proof {
                assert(succeeded.deep_view() =~= before.push(self.plan@[i as int]@));
                assert(self.plan.deep_view().take(self.done as int).take(i + 1) =~= before.push(
                    self.plan@[i as int]@,
                ));
            }
            i = i + 1;
        }
        proof {
            assert(self.plan.deep_view().take(self.done as int).take(self.done as int)
                =~= self.plan.deep_view().take(self.done as int));
        }
        let failed = match &self.failed {
            Some(n) => Some(n.clone()),
            None => None,
        };
        let total = self.plan.len();
        assert(self.done <= total);
        let start = if failed.is_some() {
            self.done + 1
        } else {
            self.done
        };
        let mut not_attempted: Vec<String> = Vec::new();
        let mut j: usize = start;
        while j < self.plan.len()
            invariant
                start <= self.plan@.len(),
                start <= j <= self.plan@.len(),
                not_attempted.deep_view() =~= self.plan.deep_view().subrange(
                    start as int,
                    j as int,
                ),
            decreases self.plan@.len() - j,
        {
            let ghost before = not_attempted.deep_view();
            not_attempted.push(self.plan[j].clone());
            proof {
                assert(not_attempted.deep_view() =~= before.push(self.plan@[j as int]@));
                assert(self.plan.deep_view().subrange(start as int, j + 1) =~= before.push(
                    self.plan@[j as int]@,
                ));
            }
            j = j + 1;
        }
        proof {
            assert(self.plan.deep_view().subrange(start as int, self.plan@.len() as int)
                =~= self.plan.deep_view().skip(start as int));
        }
        OutcomeSummary { succeeded, failed, not_attempted }
    }
}

} // verus!
