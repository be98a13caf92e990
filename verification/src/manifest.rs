//! The declarative manifest: the set of binaries the operator wants managed.
//!
//! Each entry names a binary, the repository its releases are published
//! under, the executable filename expected in the target directory, and the
//! flag that makes the executable print its version. Loading rejects a
//! manifest in which two entries share a name.

use vstd::prelude::*;

verus! {

/// One declared binary.
#[derive(Debug)]
pub struct ManifestEntry {
    /// Unique key of the entry, stable across runs.
    pub name: String,
    /// Repository identifier the releases are looked up under, in
    /// "owner/project" form.
    pub repo: String,
    /// Filename expected in the target directory.
    pub exe: String,
    /// Flag passed to the executable to make it print its version.
    pub version_arg: String,
}

impl ManifestEntry {
    pub fn new(name: String, repo: String, exe: String, version_arg: String) -> (r: Self)
        ensures
            r.name@ == name@,
            r.repo@ == repo@,
            r.exe@ == exe@,
            r.version_arg@ == version_arg@,
    {
        ManifestEntry { name, repo, exe, version_arg }
    }
}

/// A fatal configuration fault: the whole invocation aborts before any
/// probing.
#[derive(Debug)]
pub enum ConfigurationError {
    /// The manifest source could not be obtained.
    Unreadable,
    /// The manifest source does not parse as a manifest.
    Malformed,
    /// Two manifest entries share the held name.
    DuplicateName(String),
    /// No target directory is configured.
    TargetDirUnset,
    /// The target directory does not exist and could not be created.
    TargetDirUncreatable,
}

/// A binary asked for by name that no manifest entry declares.
#[derive(Debug)]
pub struct LookupMiss {
    /// The name that was asked for.
    pub name: String,
}

/// No two entries share a name.
pub open spec fn unique_names(s: Seq<ManifestEntry>) -> bool {
    forall|i: int, j: int| 0 <= i < j < s.len() ==> s[i].name@ != s[j].name@
}

/// The first entry carrying `name`, if any.
pub open spec fn spec_find(s: Seq<ManifestEntry>, name: Seq<char>) -> Option<int>
    decreases s.len(),
{
    if s.len() == 0 {
        None
    } else if s[0].name@ == name {
        Some(0int)
    } else {
        match spec_find(s.drop_first(), name) {
            Some(k) => Some(k + 1),
            None => None,
        }
    }
}

/// The manifest: the declared entries, each under a distinct name.
#[derive(Debug)]
pub struct Manifest {
    pub entries: Vec<ManifestEntry>,
}

impl Manifest {
    /// Well-formed: entry names are pairwise distinct.
    pub open spec fn wf(&self) -> bool {
        unique_names(self.entries@)
    }

    pub open spec fn spec_len(&self) -> nat {
        self.entries@.len()
    }

    /// Builds the manifest from its entries, rejecting a duplicate name.
    /// Succeeds exactly on entry lists whose names are pairwise distinct, and
    /// keeps the entries as given, in order.
    pub fn load(entries: Vec<ManifestEntry>) -> (r: Result<Manifest, ConfigurationError>)
        ensures
            r is Ok <==> unique_names(entries@),
            match r {
                Ok(m) => m.entries@ == entries@ && m.wf(),
                Err(e) => match e {
                    ConfigurationError::DuplicateName(n) => exists|i: int, j: int|
                        0 <= i < j < entries@.len() && entries@[i].name@ == entries@[j].name@
                            && n@ == entries@[i].name@,
                    _ => false,
                },
            },
    {
        let n = entries.len();
        let mut i: usize = 0;
        while i < n
            invariant
                n == entries@.len(),
                i <= n,
                forall|p: int, q: int| 0 <= p < q < i ==> entries@[p].name@ != entries@[q].name@,
            decreases n - i,
        {
            let mut j: usize = 0;
            while j < i
                invariant
                    n == entries@.len(),
                    i < n,
                    j <= i,
                    forall|q: int| 0 <= q < j ==> entries@[q].name@ != entries@[i as int].name@,
                decreases i - j,
            {
                if entries[j].name == entries[i].name {
                    return Err(ConfigurationError::DuplicateName(entries[i].name.clone()));
                }
                j = j + 1;
            }
            i = i + 1;
        }
        Ok(Manifest { entries })
    }

    pub fn len(&self) -> (r: usize)
        ensures
            r == self.spec_len(),
    {
        self.entries.len()
    }

    /// Looks a declared binary up by name: the first entry carrying the name,
    /// or a miss naming what was asked for.
    pub fn find(&self, name: &str) -> (r: Result<&ManifestEntry, LookupMiss>)
        ensures
            match r {
                Ok(e) => {
                    &&& spec_find(self.entries@, name@) is Some
                    &&& *e == self.entries@[spec_find(self.entries@, name@).unwrap()]
                    &&& e.name@ == name@
                },
                Err(m) => spec_find(self.entries@, name@) is None && m.name@ == name@,
            },
    {
        let sought = String::from_str(name);
        let n = self.entries.len();
        let mut i: usize = 0;
        while i < n
            invariant
                n == self.entries@.len(),
                i <= n,
                sought@ == name@,
                forall|k: int| 0 <= k < i ==> self.entries@[k].name@ != name@,
            decreases n - i,
        {
            if self.entries[i].name == sought {
                proof {
                    lemma_find_props(self.entries@, name@);
                }
                return Ok(&self.entries[i]);
            }
            i = i + 1;
        }
        proof {
            lemma_find_props(self.entries@, name@);
        }
        Err(LookupMiss { name: sought })
    }
}

/// `spec_find` returns the first index carrying the name, and misses exactly
/// when no entry carries it.
pub proof fn lemma_find_props(s: Seq<ManifestEntry>, name: Seq<char>)
    ensures
        match spec_find(s, name) {
            Some(k) => 0 <= k < s.len() && s[k].name@ == name && forall|p: int|
                0 <= p < k ==> s[p].name@ != name,
            None => forall|p: int| 0 <= p < s.len() ==> s[p].name@ != name,
        },
    decreases s.len(),
{
    if s.len() > 0 && s[0].name@ != name {
        lemma_find_props(s.drop_first(), name);
        assert forall|p: int| 1 <= p < s.len() implies s[p] == s.drop_first()[p - 1] by {}
    }
}

} // verus!
