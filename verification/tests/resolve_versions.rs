use asc::vcpkg::index::{
    GitCommitInfo, VcpkgGitTreeIndex, VcpkgGitTreeInfo, VcpkgPortTreeVersion, VcpkgPortVersions,
};
use asc::vcpkg::manager::VcpkgManager;

fn entry(git_tree: &str, version: &str, port_version: u32) -> VcpkgPortTreeVersion {
    VcpkgPortTreeVersion {
        git_tree: git_tree.to_string(),
        version: Some(version.to_string()),
        version_date: None,
        version_semver: None,
        version_string: None,
        port_version,
    }
}

fn indexed() -> VcpkgGitTreeIndex {
    let mut index = VcpkgGitTreeIndex::new();
    index.apply_commit(
        &GitCommitInfo { hash: "c1".to_string(), date_time: "2024-01-01".to_string() },
        &vec![("t1".to_string(), "zlib".to_string())],
    );
    index.apply_commit(
        &GitCommitInfo { hash: "c2".to_string(), date_time: "2024-02-02".to_string() },
        &vec![("t2".to_string(), "zlib".to_string())],
    );
    index
}

#[test]
fn resolved_entries_carry_their_provenance() {
    let versions = VcpkgPortVersions {
        versions: vec![entry("t2", "1.3.1", 0), entry("t1", "1.3.0", 2)],
    };
    let rows = VcpkgManager::get_port_versions(&versions, &indexed());
    assert_eq!(rows, vec![
        ("1.3.1".to_string(), "c2".to_string(), "2024-02-02".to_string()),
        ("1.3.0#2".to_string(), "c1".to_string(), "2024-01-01".to_string()),
    ]);
}

#[test]
fn unknown_identifiers_are_dropped_and_reported_once() {
    let versions = VcpkgPortVersions {
        versions: vec![entry("t2", "1.3.1", 0), entry("t9", "0.9", 0), entry("t1", "1.3.0", 1)],
    };
    let (rows, dropped) = VcpkgManager::resolve_versions(&versions, &indexed());
    assert_eq!(rows.len(), 2);
    assert_eq!(rows[0].0, "1.3.1");
    assert_eq!(rows[1].0, "1.3.0#1");
    assert_eq!(dropped.len(), 1);
    assert_eq!(dropped[0].git_tree, "t9");
}

#[test]
fn empty_history_resolves_to_nothing() {
    let versions = VcpkgPortVersions { versions: vec![] };
    let (rows, dropped) = VcpkgManager::resolve_versions(&versions, &indexed());
    assert!(rows.is_empty());
    assert!(dropped.is_empty());
}
