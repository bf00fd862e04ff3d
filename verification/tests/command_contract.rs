//! The version contract pinned at the platform boundary.

use todo_core::{BuildInfo, API_VERSION};

#[test]
fn api_version_matches_contract() {
    assert_eq!(todo_core::API_VERSION, 1);
}

#[test]
fn build_info_reports_current_versions() {
    let b = BuildInfo::current();
    assert_eq!(b.core_api, API_VERSION);
    assert_eq!(b.schema, 1);
    assert_eq!(b.protocol_major, 1);
    assert_eq!(b.protocol_minor, 0);
}
