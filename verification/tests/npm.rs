use angular_migrator::npm::{key, select_compatible_version, target_semver, SemVer};

#[test]
fn key_ordering() {
    let a = SemVer { major: 1, minor: 9, patch: 0 };
    let b = SemVer { major: 1, minor: 10, patch: 0 };
    assert!(key(&b) > key(&a));
}

#[test]
fn key_packs_components() {
    assert_eq!(key(&SemVer { major: 2, minor: 1, patch: 3 }), (2u64 << 32) | (1 << 16) | 3);
    assert_eq!(target_semver(17), SemVer { major: 17, minor: 0, patch: 0 });
}

fn published(v: &str, peer: Option<&str>) -> (String, Option<Option<String>>) {
    (v.to_string(), Some(peer.map(|s| s.to_string())))
}

#[test]
fn picks_newest_accepting_version() {
    let versions = vec![
        published("15.0.0", Some("^15.0.0")),
        published("17.1.0", Some("^17.0.0")),
        published("17.2.0-rc.1", Some("^17.0.0")),
        published("16.0.0", Some("^16.0.0 || ^17.0.0")),
        published("18.0.0", Some("^18.0.0")),
        ("19.0.0".to_string(), None),
    ];
    assert_eq!(
        select_compatible_version(&versions, 17),
        Some("^17.1.0".to_string())
    );
    assert_eq!(select_compatible_version(&versions, 14), None);
}

#[test]
fn skips_unparsable_ranges_and_versions() {
    let versions = vec![
        published("not-a-version", Some("^17.0.0")),
        published("3.0.0", Some("@@@")),
        published("2.0.0", None),
        published("1.0.0", Some(">=17")),
    ];
    assert_eq!(
        select_compatible_version(&versions, 17),
        Some("^1.0.0".to_string())
    );
}
