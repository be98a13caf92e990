//! Reconciliation of a declared set of command-line binaries against what is
//! installed in a target directory.
//!
//! A manifest declares, per binary, a unique name, the repository its
//! releases are published under, the executable filename expected in the
//! target directory, and the flag that makes it print its version. Against a
//! snapshot of the directory's contents, reconciliation decides per entry
//! whether it is installed and which version it reports, optionally
//! correlates that with the latest published release, and plans the installs
//! of whatever is missing.
//!
//! The shell around this library performs the reads, subprocess invocations,
//! network requests and installs, and hands their outcomes over as plain
//! values; every decision about those values is made, and proved, here.

pub mod fetch;
pub mod manifest;
pub mod reconcile;
pub mod remote;
pub mod status;
pub mod version;
