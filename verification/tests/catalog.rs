use angular_migrator::catalog::{
    catalog, catalog_major, latest_major, typescript_range, typescript_spec, LATEST_MAJOR,
    MIN_SUPPORTED_MAJOR,
};

#[test]
fn catalog_is_contiguous_from_6() {
    let mut last = MIN_SUPPORTED_MAJOR;
    for entry in catalog() {
        assert_eq!(entry.major, last, "catalog must be contiguous");
        last += 1;
    }
    assert_eq!(last - 1, LATEST_MAJOR);
}

#[test]
fn versions_are_three_part() {
    for e in catalog() {
        let parts: Vec<&str> = e.core.split('.').collect();
        assert_eq!(parts.len(), 3, "core {} should be x.y.z", e.core);
        assert!(e.material.split('.').count() >= 3);
    }
}

#[test]
fn typescript_spec_format() {
    let e = catalog_major(19).unwrap();
    assert_eq!(typescript_spec(&e), "~5.8.0");
    assert_eq!(typescript_range(&e), "5.5 - 5.8");
}

#[test]
fn catalog_lookup_outside_range_is_none() {
    assert!(catalog_major(5).is_none());
    assert!(catalog_major(23).is_none());
    assert_eq!(catalog_major(6).unwrap().major, 6);
    assert_eq!(catalog_major(22).unwrap().major, 22);
}

#[test]
fn latest_major_is_newest_entry() {
    assert_eq!(latest_major(), 22);
    assert_eq!(latest_major(), catalog().last().unwrap().major);
}

#[test]
fn unconfirmed_entries_start_at_21() {
    for e in catalog() {
        assert_eq!(e.confirmed, e.major <= 20, "major {}", e.major);
    }
}

#[test]
fn typescript_range_single_version() {
    let mut e = catalog_major(19).unwrap();
    e.typescript = (5, 8);
    assert_eq!(typescript_range(&e), "5.8");
}

#[test]
fn core_versions_have_three_parts() {
    for e in catalog() {
        assert_eq!(e.core.matches('.').count(), 2);
    }
}
