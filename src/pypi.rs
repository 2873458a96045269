//! Records of a package index.
use vstd::prelude::*;

verus! {

/// How often a package was downloaded over the last day, week and month.
#[derive(Clone, Copy, Debug, PartialEq, Eq, Structural)]
pub struct PyPIPackageDownloadInfo {
    pub last_day: i32,
    pub last_week: i32,
    pub last_month: i32,
}

} // verus!
