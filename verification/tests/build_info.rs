use garage_secrets_controller::build_info::{log_version_info, log_version_info_values};

const PR_BUILD_WARNING: &str = "This version is built from a pull request and therefore not intended to run in production. Please use a stable build.";

fn rendered(log: &garage_secrets_controller::build_info::VersionLog) -> String {
    let mut s = format!("{} version={} build_date={}", log.message, log.version, log.build_date);
    if let Some(w) = &log.warning {
        s.push('\n');
        s.push_str(w);
    }
    s
}

#[test]
fn logs_version_and_build_date_without_pr_warning() {
    let logs = rendered(&log_version_info_values("abc1234", "2026-07-14T12:34:56Z"));

    assert!(logs.contains("starting garage-secrets-controller"));
    assert!(logs.contains("abc1234"));
    assert!(logs.contains("2026-07-14T12:34:56Z"));
    assert!(!logs.contains(PR_BUILD_WARNING));
}

#[test]
fn logs_pr_build_warning() {
    let logs = rendered(&log_version_info_values("PR-42-abc1234", "2026-07-14T12:34:56Z"));

    assert!(logs.contains("starting garage-secrets-controller"));
    assert!(logs.contains("PR-42-abc1234"));
    assert!(logs.contains(PR_BUILD_WARNING));
}

#[test]
fn unrecorded_build_values_read_unknown() {
    let log = log_version_info(None, None);
    assert_eq!(log.version, "unknown");
    assert_eq!(log.build_date, "unknown");
    assert!(log.warning.is_none());
    let pr = log_version_info(Some("PR-7-def"), Some("2026-01-01T00:00:00Z"));
    assert_eq!(pr.warning.as_deref(), Some(PR_BUILD_WARNING));
    assert!(log_version_info_values("PR", "d").warning.is_none());
}
