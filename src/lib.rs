//! Version identifiers of Python packages, their order, and the requirement
//! lines that name them.

pub mod grammar;
pub mod ordering;
pub mod package_version;
pub mod pypi;
pub mod requirements;
pub mod text;

pub use ordering::compare;
pub use package_version::{
    parse_version, DevHead, PackageVersion, ParseError, PostHead, PostHeader, PreHeader,
    ReleaseHeader, Segment,
};
pub use pypi::PyPIPackageDownloadInfo;
pub use requirements::{
    parse_requirement, Diagnostic, IoError, PyRequirements, PyRequirementsModule,
    PyRequirementsOperator, RequirementError,
};
