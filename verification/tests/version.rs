use codex_napi::version::{cli_version, resolved_version, version};

#[test]
fn cli_version_counts_first() {
    assert_eq!(resolved_version(Some("1.2.3"), Some("9.9.9")), "1.2.3");
    assert_eq!(resolved_version(None, Some("9.9.9")), "9.9.9");
    assert_eq!(resolved_version(None, None), "0.0.0");
}

#[test]
fn both_reports_give_the_resolved_version() {
    assert_eq!(version(Some("1.0.0"), None), "1.0.0");
    assert_eq!(cli_version(None, Some("2.0.0")), "2.0.0");
    assert_eq!(version(None, None), "0.0.0");
}
