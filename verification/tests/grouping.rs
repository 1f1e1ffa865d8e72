use asc::cli::commands::ScanOptions;
use asc::cmake::lists::{group_data, SourceMappings};

fn options() -> ScanOptions {
    ScanOptions {
        project: "demo".to_string(),
        project_dir: "/w/p".to_string(),
        target_dir: "/w/t".to_string(),
        source_dir: "/w/p/src".to_string(),
        entry_point_source: String::new(),
        include_dirs: vec![],
        shared_lib: false,
        static_lib: false,
        cmake_minimum_version: "3.20".to_string(),
        cmake_config: String::new(),
    }
}

fn value_of<'a>(map: &'a [(String, String)], key: &str) -> Option<&'a str> {
    map.iter().find(|(k, _)| k == key).map(|(_, v)| v.as_str())
}

#[test]
fn headers_and_sources_group_by_directory() {
    let mappings = SourceMappings {
        header_include_by_sources: vec![
            (
                "/w/p/src/a/x.h".to_string(),
                vec!["/w/p/src/a/x.cpp".to_string(), "/w/p/src/b/y.cpp".to_string()],
            ),
            ("/w/p/src/b/z.h".to_string(), vec!["/w/p/src/b/y.cpp".to_string()]),
        ],
    };
    let (groups, classify_to_dir, install_headers) = group_data(&options(), &mappings);

    let group_a = groups.iter().find(|(k, _)| k == "src_a").expect("group src_a");
    assert!(group_a.1.contains(&"src/a/x.h".to_string()));
    assert!(group_a.1.contains(&"src/a/x.cpp".to_string()));
    assert_eq!(group_a.1.len(), 2);
    let group_b = groups.iter().find(|(k, _)| k == "src_b").expect("group src_b");
    assert!(group_b.1.contains(&"src/b/y.cpp".to_string()));
    assert!(group_b.1.contains(&"src/b/z.h".to_string()));
    assert_eq!(group_b.1.len(), 2);

    assert_eq!(value_of(&classify_to_dir, "src_a"), Some("src/a"));
    assert_eq!(value_of(&classify_to_dir, "src_b"), Some("src/b"));

    // headers under the source tree install from their project-relative
    // path into their source-relative directory
    assert_eq!(value_of(&install_headers, "src/a/x.h"), Some("a"));
    assert_eq!(value_of(&install_headers, "src/b/z.h"), Some("b"));
}

#[test]
fn a_generated_header_installs_from_the_build_directory() {
    let mappings = SourceMappings {
        header_include_by_sources: vec![
            ("/w/t/gen/c.h".to_string(), vec!["/w/p/src/a/x.cpp".to_string()]),
        ],
    };
    let (_, _, install_headers) = group_data(&options(), &mappings);
    assert_eq!(
        value_of(&install_headers, "${CMAKE_CURRENT_BINARY_DIR}/gen/c.h"),
        Some("")
    );
}

#[test]
fn a_repeated_path_is_grouped_once() {
    let mappings = SourceMappings {
        header_include_by_sources: vec![
            ("/w/p/src/a/x.h".to_string(), vec!["/w/p/src/a/x.cpp".to_string()]),
            ("/w/p/src/a/x.h".to_string(), vec!["/w/p/src/a/x.cpp".to_string()]),
        ],
    };
    let (groups, _, install_headers) = group_data(&options(), &mappings);
    assert_eq!(groups.len(), 1);
    assert_eq!(groups[0].1.len(), 2);
    assert_eq!(install_headers.len(), 1);
}

#[test]
fn path_helpers_exact_values() {
    assert_eq!(asc::util::text::parent_dir("a/b/c.h"), "a/b");
    assert_eq!(asc::util::text::parent_dir("c.h"), "");
    assert_eq!(asc::util::text::parent_dir(""), "");
    assert_eq!(asc::util::text::slashes_to_underscores("a/b/c"), "a_b_c");
    assert_eq!(asc::util::text::slashes_to_underscores("abc"), "abc");
}
