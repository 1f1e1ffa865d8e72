use asc::vcpkg::index::{GitCommitInfo, VcpkgGitTreeIndex, VcpkgGitTreeInfo};
use asc::vcpkg::manager::VcpkgManager;
use asc::vcpkg::search::VcpkgSearchIndex;

fn commit(hash: &str, date_time: &str) -> GitCommitInfo {
    GitCommitInfo { hash: hash.to_string(), date_time: date_time.to_string() }
}

fn info(port: &str, hash: &str, when: &str) -> VcpkgGitTreeInfo {
    VcpkgGitTreeInfo {
        port_name: port.to_string(),
        commit_hash: hash.to_string(),
        commit_date_time: when.to_string(),
    }
}

#[test]
fn insert_if_absent_reports_newness() {
    let mut index = VcpkgGitTreeIndex::new();
    assert!(index.insert_if_absent("t1".to_string(), info("zlib", "c1", "2024-01-01")));
    assert!(!index.insert_if_absent("t1".to_string(), info("zlib", "c9", "2024-09-09")));
    assert_eq!(index.len(), 1);
}

#[test]
fn first_writer_wins_across_commits() {
    let mut index = VcpkgGitTreeIndex::new();
    index.apply_commit(&commit("c1", "2024-01-01"), &vec![("t1".to_string(), "zlib".to_string())]);
    index.apply_commit(&commit("c2", "2024-02-02"), &vec![
        ("t1".to_string(), "zlib".to_string()),
        ("t2".to_string(), "zlib".to_string()),
    ]);
    let first = index.lookup("t1").expect("t1 must be present");
    assert_eq!(first.commit_hash, "c1");
    assert_eq!(first.commit_date_time, "2024-01-01");
    let second = index.lookup("t2").expect("t2 must be present");
    assert_eq!(second.commit_hash, "c2");
}

#[test]
fn out_of_order_replay_keeps_existing_entries() {
    let mut index = VcpkgGitTreeIndex::new();
    index.apply_commit(&commit("c2", "2024-02-02"), &vec![("t1".to_string(), "zlib".to_string())]);
    index.apply_commit(&commit("c1", "2024-01-01"), &vec![("t1".to_string(), "zlib".to_string())]);
    assert_eq!(index.lookup("t1").unwrap().commit_hash, "c2");
}

#[test]
fn lookup_is_exact_match_only() {
    let mut index = VcpkgGitTreeIndex::new();
    index.insert_if_absent("abcdef".to_string(), info("fmt", "c1", "d1"));
    assert!(index.lookup("abcdef").is_some());
    assert!(index.lookup("abc").is_none());
    assert!(index.lookup("abcdef0").is_none());
    assert!(index.lookup("").is_none());
}

#[test]
fn from_entries_first_entry_wins() {
    let index = VcpkgGitTreeIndex::from_entries(
        vec![
            ("t1".to_string(), info("zlib", "c1", "d1")),
            ("t1".to_string(), info("zlib", "c2", "d2")),
            ("t2".to_string(), info("fmt", "c2", "d2")),
        ],
        commit("c2", "d2"),
    );
    assert_eq!(index.len(), 2);
    assert_eq!(index.lookup("t1").unwrap().commit_hash, "c1");
    assert_eq!(index.check_point().hash, "c2");
}

fn log_of_three() -> Vec<GitCommitInfo> {
    vec![commit("c1", "d1"), commit("c2", "d2"), commit("c3", "d3")]
}

fn trees_of(hash: &str) -> Vec<(String, String)> {
    match hash {
        "c1" => vec![("t1".to_string(), "zlib".to_string())],
        "c2" => vec![("t1".to_string(), "zlib".to_string()), ("t2".to_string(), "fmt".to_string())],
        "c3" => vec![("t3".to_string(), "fmt".to_string())],
        _ => vec![],
    }
}

#[test]
fn resume_matches_single_pass() {
    // one uninterrupted pass over all three commits
    let mut full = VcpkgManager::new(VcpkgGitTreeIndex::new(), VcpkgSearchIndex::new());
    let log = log_of_three();
    full.build_git_tree_index(&log, &vec![trees_of("c1"), trees_of("c2"), trees_of("c3")]);

    // first two commits, then resume over the full log
    let mut resumed = VcpkgManager::new(VcpkgGitTreeIndex::new(), VcpkgSearchIndex::new());
    let prefix = vec![commit("c1", "d1"), commit("c2", "d2")];
    resumed.build_git_tree_index(&prefix, &vec![trees_of("c1"), trees_of("c2")]);
    assert_eq!(resumed.git_tree_index.check_point().hash, "c2");
    resumed.build_git_tree_index(&log, &vec![trees_of("c3")]);

    assert_eq!(full.git_tree_index.len(), resumed.git_tree_index.len());
    for t in ["t1", "t2", "t3"] {
        let a = full.git_tree_index.lookup(t).expect("present in full pass");
        let b = resumed.git_tree_index.lookup(t).expect("present in resumed pass");
        assert_eq!(a.port_name, b.port_name);
        assert_eq!(a.commit_hash, b.commit_hash);
        assert_eq!(a.commit_date_time, b.commit_date_time);
    }
    assert_eq!(full.git_tree_index.check_point().hash, "c3");
    assert_eq!(resumed.git_tree_index.check_point().hash, "c3");
}

#[test]
fn checkpoint_moves_to_last_commit_and_never_back() {
    let mut manager = VcpkgManager::new(VcpkgGitTreeIndex::new(), VcpkgSearchIndex::new());
    let prefix = vec![commit("c1", "d1"), commit("c2", "d2")];
    manager.build_git_tree_index(&prefix, &vec![trees_of("c1"), trees_of("c2")]);
    assert_eq!(manager.git_tree_index.check_point().hash, "c2");

    let log = log_of_three();
    manager.build_git_tree_index(&log, &vec![trees_of("c3")]);
    assert_eq!(manager.git_tree_index.check_point().hash, "c3");

    // a further run over an unchanged log keeps the checkpoint at the end
    manager.build_git_tree_index(&log, &vec![]);
    assert_eq!(manager.git_tree_index.check_point().hash, "c3");
}

#[test]
fn unknown_checkpoint_restarts_from_the_beginning() {
    let mut manager = VcpkgManager::new(
        VcpkgGitTreeIndex::from_entries(vec![], commit("gone", "d0")),
        VcpkgSearchIndex::new(),
    );
    let log = log_of_three();
    assert_eq!(manager.resume_start(&log), 0);
    manager.build_git_tree_index(&log, &vec![trees_of("c1"), trees_of("c2"), trees_of("c3")]);
    assert_eq!(manager.git_tree_index.len(), 3);
}
