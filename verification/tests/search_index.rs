use asc::vcpkg::index::{GitCommitInfo, VcpkgBaseline, VcpkgGitTreeIndex, VcpkgPortVersion};
use asc::vcpkg::manager::VcpkgManager;
use asc::vcpkg::search::VcpkgSearchIndex;

fn commit(hash: &str, date_time: &str) -> GitCommitInfo {
    GitCommitInfo { hash: hash.to_string(), date_time: date_time.to_string() }
}

fn baseline_of(names: &[&str]) -> VcpkgBaseline {
    VcpkgBaseline {
        default: names
            .iter()
            .map(|n| {
                (n.to_string(), VcpkgPortVersion { baseline: "1.0".to_string(), port_version: 0 })
            })
            .collect(),
    }
}

fn sorted(mut v: Vec<String>) -> Vec<String> {
    v.sort();
    v
}

#[test]
fn search_prefix_finds_every_inserted_name() {
    let mut s = VcpkgSearchIndex::new();
    s.rebuild_if_stale(&commit("c1", "d1"), baseline_of(&["zlib", "zstd", "fmt"]));
    // the full name and every shorter prefix find the name
    for q in ["zlib", "zli", "zl", "z"] {
        let found = s.search_prefix(q);
        assert!(found.contains(&"zlib".to_string()), "query {q} must find zlib");
    }
    assert_eq!(sorted(s.search_prefix("z")), vec!["zlib".to_string(), "zstd".to_string()]);
    assert_eq!(sorted(s.search_prefix("")), vec![
        "fmt".to_string(),
        "zlib".to_string(),
        "zstd".to_string(),
    ]);
    assert!(s.search_prefix("zlibx").is_empty());
    assert!(s.search_prefix("q").is_empty());
}

#[test]
fn search_suffix_goes_through_the_reversed_trie() {
    let mut s = VcpkgSearchIndex::new();
    s.rebuild_if_stale(&commit("c1", "d1"), baseline_of(&["zlib", "matio", "vorbis"]));
    let found = s.search_contains_suffix("io");
    assert!(found.contains(&"matio".to_string()));
    assert!(!found.contains(&"zlib".to_string()));
    let found = s.search_contains_suffix("b");
    assert!(found.contains(&"zlib".to_string()));
}

#[test]
fn stale_rebuild_is_skipped_entirely() {
    let mut s = VcpkgSearchIndex::new();
    s.rebuild_if_stale(&commit("c5", "d5"), baseline_of(&["zlib"]));
    assert_eq!(s.check_point().hash, "c5");

    // same source commit: no mutation, even with a larger baseline
    s.rebuild_if_stale(&commit("c5", "d5"), baseline_of(&["zlib", "fmt"]));
    assert_eq!(s.check_point().hash, "c5");
    assert!(s.search_prefix("fmt").is_empty());
    assert!(s.baseline.get_version("fmt").is_none());

    // an older source commit is skipped too
    s.rebuild_if_stale(&commit("c4", "d4"), baseline_of(&["zlib", "fmt", "abc"]));
    assert_eq!(s.check_point().hash, "c5");
    assert!(s.search_prefix("abc").is_empty());

    // a newer source commit rebuilds
    s.rebuild_if_stale(&commit("c6", "d6"), baseline_of(&["zlib", "fmt"]));
    assert_eq!(s.check_point().hash, "c6");
    assert!(s.search_prefix("fmt").contains(&"fmt".to_string()));
    assert_eq!(s.baseline.get_version("fmt").unwrap().format_version_text(), "1.0");
}

#[test]
fn index_runs_both_stages_and_is_idempotent() {
    let mut manager = VcpkgManager::new(VcpkgGitTreeIndex::new(), VcpkgSearchIndex::new());
    let log = vec![commit("c1", "d1"), commit("c2", "d2")];
    let trees = vec![
        vec![("t1".to_string(), "zlib".to_string())],
        vec![("t2".to_string(), "fmt".to_string())],
    ];
    manager.index(&log, &trees, baseline_of(&["zlib", "fmt"]));
    assert_eq!(manager.git_tree_index.len(), 2);
    assert_eq!(manager.git_tree_index.check_point().hash, "c2");
    assert_eq!(manager.search_index.check_point().hash, "c2");
    assert!(manager.search_index.search_prefix("zl").contains(&"zlib".to_string()));

    // a second run over unchanged upstream state changes nothing
    manager.index(&log, &vec![], baseline_of(&["zlib", "fmt"]));
    assert_eq!(manager.git_tree_index.len(), 2);
    assert_eq!(manager.git_tree_index.check_point().hash, "c2");
    assert_eq!(manager.search_index.check_point().hash, "c2");
    assert_eq!(manager.git_tree_index.lookup("t1").unwrap().commit_hash, "c1");
    let names = manager.search_index.search_prefix("");
    let mut names = names.clone();
    names.sort();
    assert_eq!(names, vec!["fmt".to_string(), "zlib".to_string()]);
}

#[test]
fn parts_round_trip_preserves_the_index() {
    let mut s = VcpkgSearchIndex::new();
    s.rebuild_if_stale(&commit("c1", "d1"), baseline_of(&["zlib"]));
    let (prefix_trie, postfix_trie, baseline, check_point) = s.into_parts();
    let restored = VcpkgSearchIndex::from_parts(prefix_trie, postfix_trie, baseline, check_point);
    assert!(restored.search_prefix("z").contains(&"zlib".to_string()));
    assert_eq!(restored.check_point().hash, "c1");
}

#[test]
fn rebuild_from_an_empty_baseline_only_moves_the_checkpoint() {
    let mut s = VcpkgSearchIndex::new();
    s.rebuild_if_stale(&commit("c1", "d1"), baseline_of(&[]));
    assert_eq!(s.check_point().hash, "c1");
    assert!(s.search_prefix("").is_empty());
}

#[test]
fn suffix_round_trip_for_every_suffix() {
    let mut s = VcpkgSearchIndex::new();
    s.rebuild_if_stale(&commit("c1", "d1"), baseline_of(&["zlib"]));
    for q in ["zlib", "lib", "ib", "b", ""] {
        assert!(
            s.search_contains_suffix(q).contains(&"zlib".to_string()),
            "suffix {q} must find zlib"
        );
    }
}
