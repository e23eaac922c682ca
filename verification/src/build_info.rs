//! What the controller announces about its build when it starts.
use vstd::prelude::*;
use crate::text::{owned, starts_with};

verus! {

/// The lines to log at start-up.
#[derive(Debug)]
pub struct VersionLog {
    /// The start-up message.
    pub message: String,
    /// The version logged with it.
    pub version: String,
    /// The build date logged with it.
    pub build_date: String,
    /// The warning to log after it, for builds of a pull request.
    pub warning: Option<String>,
}

/// The warning for builds made from a pull request.
pub open spec fn pr_build_warning() -> Seq<char> {
    "This version is built from a pull request and therefore not intended to run in production. Please use a stable build."@
}

/// Whether a version names a build of a pull request.
pub open spec fn is_pr_version(version: Seq<char>) -> bool {
    version.len() >= 3 && version.subrange(0, 3) == "PR-"@
}

/// The start-up lines for a given version and build date.
pub fn log_version_info_values(version: &str, build_date: &str) -> (l: VersionLog)
    ensures
        l.message@ == "starting garage-secrets-controller"@,
        l.version@ == version@,
        l.build_date@ == build_date@,
        is_pr_version(version@) ==> (l.warning matches Some(w) && w@ == pr_build_warning()),
        !is_pr_version(version@) ==> l.warning is None,
{
    proof {
        reveal_strlit("PR-");
    }
    let warning = if starts_with(version, "PR-") {
        Some(owned("This version is built from a pull request and therefore not intended to run in production. Please use a stable build."))
    } else {
        None
    };
    VersionLog {
        message: owned("starting garage-secrets-controller"),
        version: owned(version),
        build_date: owned(build_date),
        warning,
    }
}

/// The start-up lines for the version and build date recorded at build time; `unknown` stands
/// for a value that was not recorded.
pub fn log_version_info(build_version: Option<&str>, build_date: Option<&str>) -> (l: VersionLog)
    ensures
        l.message@ == "starting garage-secrets-controller"@,
        l.version@ == match build_version {
            Some(v) => v@,
            None => "unknown"@,
        },
        l.build_date@ == match build_date {
            Some(d) => d@,
            None => "unknown"@,
        },
        is_pr_version(l.version@) ==> (l.warning matches Some(w) && w@ == pr_build_warning()),
        !is_pr_version(l.version@) ==> l.warning is None,
{
    let version = match build_version {
        Some(v) => v,
        None => "unknown",
    };
    let date = match build_date {
        Some(d) => d,
        None => "unknown",
    };
    log_version_info_values(version, date)
}

} // verus!
