use cirno::gc::{parse_cache_filename, parse_package_manager, plan_gc};
use cirno::lockfile::{LinkType, YarnLock, YarnLockEntry, YarnLockMetadata};
use cirno::manifest::{Meta, MetaRecord, Package};
use cirno::rc::YarnRc;

fn entry(resolution: &str) -> YarnLockEntry {
    YarnLockEntry {
        version: "0.0.0".to_string(),
        resolution: resolution.to_string(),
        dependencies: Vec::new(),
        checksum: "cafe".to_string(),
        language_name: "node".to_string(),
        link_type: LinkType::Hard,
    }
}

fn record(package_manager: &str, cache_key: &str, resolutions: &[&str]) -> MetaRecord {
    MetaRecord {
        app_id: "app".to_string(),
        backup_id: None,
        meta: Meta {
            package: Package {
                name: "app".to_string(),
                package_manager: package_manager.to_string(),
            },
            yarn_rc: YarnRc::sandbox_default(),
            yarn_lock: YarnLock {
                metadata: YarnLockMetadata {
                    version: 8,
                    cache_key: cache_key.to_string(),
                },
                packages: resolutions.iter().map(|r| entry(r)).collect(),
            },
        },
    }
}

fn strings(items: &[&str]) -> Vec<String> {
    items.iter().map(|s| s.to_string()).collect()
}

#[test]
fn cache_filename_splits_at_last_hyphen() {
    assert_eq!(
        parse_cache_filename("lodash-abc123.zip"),
        Some(("lodash".to_string(), "abc123".to_string()))
    );
    assert_eq!(
        parse_cache_filename("left-pad-deadbeef.zip"),
        Some(("left-pad".to_string(), "deadbeef".to_string()))
    );
}

#[test]
fn cache_filename_rejects_other_shapes() {
    assert_eq!(parse_cache_filename("README.md"), None);
    assert_eq!(parse_cache_filename("-abc.zip"), None);
    assert_eq!(parse_cache_filename("lodash-.zip"), None);
    assert_eq!(parse_cache_filename("lodash-ABC.zip"), None);
    assert_eq!(parse_cache_filename("lodashabc.zip"), None);
    assert_eq!(parse_cache_filename("lodash-abc123.tar"), None);
    assert_eq!(parse_cache_filename(".zip"), None);
}

#[test]
fn package_manager_descriptor_parses() {
    assert_eq!(
        parse_package_manager("yarn@4.1.0"),
        Some(("yarn".to_string(), "4.1.0".to_string()))
    );
    assert_eq!(
        parse_package_manager("pnpm@8.15.4"),
        Some(("pnpm".to_string(), "8.15.4".to_string()))
    );
}

#[test]
fn package_manager_descriptor_rejects_other_shapes() {
    assert_eq!(parse_package_manager("yarn"), None);
    assert_eq!(parse_package_manager("yarn@4.1"), None);
    assert_eq!(parse_package_manager("yarn@4.1.0.2"), None);
    assert_eq!(parse_package_manager("@1.2.3"), None);
    assert_eq!(parse_package_manager("ya rn@1.2.3"), None);
    assert_eq!(parse_package_manager("yarn@a.b.c"), None);
    assert_eq!(parse_package_manager(""), None);
}

#[test]
fn lockfile_cache_files_skip_workspace_entries() {
    let rec = record(
        "yarn@4.1.0",
        "abc123",
        &["lodash@npm:4.17.21", "myapp@workspace:.", "@types/node@npm:18.0.0"],
    );
    let files = rec.meta.yarn_lock.get_cache_files().unwrap();
    assert_eq!(files, vec!["lodash".to_string(), "@types-node".to_string()]);
}

#[test]
fn lockfile_parse_failure_is_reported() {
    let rec = record("yarn@4.1.0", "abc123", &["lodash@npm:4.17.21", "bad/resolution"]);
    let err = rec.meta.yarn_lock.get_cache_files().unwrap_err();
    assert_eq!(err.resolution, "bad/resolution");
    assert_eq!(
        err.message(),
        "Failed to parse resolution: bad/resolution"
    );
}

#[test]
fn gc_keeps_referenced_artifacts_and_sweeps_the_rest() {
    let records = vec![record("yarn@4.1.0", "abc123", &["lodash@npm:4.17.21"])];
    let cache = strings(&["lodash-abc123.zip", "left-pad-deadbeef.zip"]);
    let releases = strings(&["yarn-4.1.0.cjs", "yarn-3.0.0.cjs"]);
    let plan = plan_gc(&cache, &releases, &records).unwrap();
    assert_eq!(plan.delete_cache, strings(&["left-pad-deadbeef.zip"]));
    assert_eq!(plan.delete_releases, strings(&["yarn-3.0.0.cjs"]));
}

#[test]
fn gc_partitions_by_cache_key() {
    // the same slug under another cache-format generation is unprotected
    let records = vec![record("yarn@4.1.0", "abc123", &["lodash@npm:4.17.21"])];
    let cache = strings(&["lodash-abc123.zip", "lodash-9999ff.zip"]);
    let releases = strings(&[]);
    let plan = plan_gc(&cache, &releases, &records).unwrap();
    assert_eq!(plan.delete_cache, strings(&["lodash-9999ff.zip"]));
}

#[test]
fn gc_never_touches_foreign_filenames() {
    let records = vec![record("yarn@4.1.0", "abc123", &[])];
    let cache = strings(&["README.md", "not-a-cache-entry"]);
    let releases = strings(&[]);
    let plan = plan_gc(&cache, &releases, &records).unwrap();
    assert_eq!(plan.delete_cache, Vec::<String>::new());
}

#[test]
fn gc_ignores_unsupported_managers_for_releases() {
    let records = vec![record("pnpm@8.0.0", "abc123", &[])];
    let releases = strings(&["yarn-8.0.0.cjs", "pnpm-8.0.0.cjs"]);
    let plan = plan_gc(&strings(&[]), &releases, &records).unwrap();
    // nothing protects either file: the manager is not the supported one
    assert_eq!(plan.delete_releases, releases);
}

#[test]
fn gc_aborts_on_any_unreadable_lockfile() {
    let records = vec![
        record("yarn@4.1.0", "abc123", &["lodash@npm:4.17.21"]),
        record("yarn@4.1.0", "abc123", &["bad/resolution"]),
    ];
    let err = plan_gc(&strings(&["lodash-abc123.zip"]), &strings(&[]), &records).unwrap_err();
    assert_eq!(err.resolution, "bad/resolution");
}

#[test]
fn gc_with_no_applications_protects_nothing() {
    let plan = plan_gc(
        &strings(&["lodash-abc123.zip"]),
        &strings(&["yarn-4.1.0.cjs"]),
        &Vec::new(),
    )
    .unwrap();
    assert_eq!(plan.delete_cache, strings(&["lodash-abc123.zip"]));
    assert_eq!(plan.delete_releases, strings(&["yarn-4.1.0.cjs"]));
}

#[test]
fn gc_joins_protection_across_records_under_one_key() {
    let records = vec![
        record("yarn@4.1.0", "abc123", &["lodash@npm:4.17.21"]),
        record("yarn@4.1.0", "abc123", &["left-pad@npm:1.3.0"]),
    ];
    let cache = strings(&["lodash-abc123.zip", "left-pad-abc123.zip", "chalk-abc123.zip"]);
    let plan = plan_gc(&cache, &strings(&[]), &records).unwrap();
    assert_eq!(plan.delete_cache, strings(&["chalk-abc123.zip"]));
}

#[test]
fn gc_twice_deletes_nothing_the_second_time() {
    let records = vec![record("yarn@4.1.0", "abc123", &["lodash@npm:4.17.21"])];
    let cache = strings(&[
        "lodash-abc123.zip",
        "left-pad-deadbeef.zip",
        "old-thing-0123.zip",
    ]);
    let releases = strings(&["yarn-4.1.0.cjs", "yarn-3.0.0.cjs", "yarn-2.4.3.cjs"]);
    let first = plan_gc(&cache, &releases, &records).unwrap();
    let cache_left: Vec<String> = cache
        .iter()
        .filter(|f| !first.delete_cache.contains(f))
        .cloned()
        .collect();
    let releases_left: Vec<String> = releases
        .iter()
        .filter(|f| !first.delete_releases.contains(f))
        .cloned()
        .collect();
    let second = plan_gc(&cache_left, &releases_left, &records).unwrap();
    assert_eq!(second.delete_cache, Vec::<String>::new());
    assert_eq!(second.delete_releases, Vec::<String>::new());
}
