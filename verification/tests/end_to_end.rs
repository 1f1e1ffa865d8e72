use asc::vcpkg::index::{GitCommitInfo, VcpkgBaseline, VcpkgGitTreeIndex, VcpkgPortVersion};
use asc::vcpkg::manager::VcpkgManager;
use asc::vcpkg::search::VcpkgSearchIndex;

fn commit(hash: &str, date_time: &str) -> GitCommitInfo {
    GitCommitInfo { hash: hash.to_string(), date_time: date_time.to_string() }
}

#[test]
fn listings_flow_through_crawl_index_and_search() {
    let listings = [
        "040000 tree aa11\tports/zlib\n040000 tree bb22\tports/fmt\n",
        "040000 tree aa11\tports/zlib\n040000 tree cc33\tports/zlib\n",
    ];
    let log = vec![commit("c1", "2024-01-01"), commit("c2", "2024-02-02")];
    let trees: Vec<Vec<(String, String)>> =
        listings.iter().map(|s| VcpkgManager::get_git_trees(s)).collect();

    let mut manager = VcpkgManager::new(VcpkgGitTreeIndex::new(), VcpkgSearchIndex::new());
    let baseline = VcpkgBaseline {
        default: vec![
            ("zlib".to_string(), VcpkgPortVersion { baseline: "1.3".to_string(), port_version: 1 }),
            ("fmt".to_string(), VcpkgPortVersion { baseline: "10.0".to_string(), port_version: 0 }),
        ],
    };
    manager.index(&log, &trees, baseline);

    // provenance: aa11 was first seen in c1 and must keep it; cc33 came with c2
    assert_eq!(manager.git_tree_index.lookup("aa11").unwrap().commit_hash, "c1");
    assert_eq!(manager.git_tree_index.lookup("bb22").unwrap().port_name, "fmt");
    assert_eq!(manager.git_tree_index.lookup("cc33").unwrap().commit_hash, "c2");
    assert_eq!(manager.git_tree_index.len(), 3);
    assert_eq!(manager.git_tree_index.check_point().hash, "c2");

    // the search index was rebuilt against the log's last commit
    assert_eq!(manager.search_index.check_point().hash, "c2");
    assert!(manager.search_index.search_prefix("zl").contains(&"zlib".to_string()));
    let v = manager.search_index.baseline.get_version("zlib").unwrap();
    assert_eq!(v.format_version_text(), "1.3#1");
}
