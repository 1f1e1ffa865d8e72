use asc::vcpkg::manager::VcpkgManager;

#[test]
fn listing_lines_parse_to_pairs() {
    let stdout = "040000 tree 1111aaaa\tports/zlib\n040000 tree 2222bbbb\tports/fmt\n";
    let pairs = VcpkgManager::get_git_trees(stdout);
    assert_eq!(pairs, vec![
        ("1111aaaa".to_string(), "zlib".to_string()),
        ("2222bbbb".to_string(), "fmt".to_string()),
    ]);
}

#[test]
fn blank_and_malformed_lines_are_dropped() {
    let stdout = "\n   \nnot a listing line\n040000 tree 3333cccc\tports/curl\nblob 4444\n";
    let pairs = VcpkgManager::get_git_trees(stdout);
    assert_eq!(pairs, vec![("3333cccc".to_string(), "curl".to_string())]);
}

#[test]
fn a_line_with_two_ports_prefixes_is_dropped() {
    let stdout = "040000 tree 5555dddd\tports/ports/odd";
    let pairs = VcpkgManager::get_git_trees(stdout);
    assert!(pairs.is_empty());
}

#[test]
fn empty_listing_parses_to_nothing() {
    assert!(VcpkgManager::get_git_trees("").is_empty());
}

#[test]
fn nested_port_path_keeps_the_tail() {
    let stdout = "040000 tree 6666eeee\tports/boost-math/include";
    let pairs = VcpkgManager::get_git_trees(stdout);
    assert_eq!(pairs, vec![("6666eeee".to_string(), "boost-math/include".to_string())]);
}

#[test]
fn text_helpers_exact_values() {
    assert_eq!(asc::util::text::reverse_string("abc"), "cba");
    assert_eq!(asc::util::text::reverse_string(""), "");
    assert!(asc::util::text::str_le("abc", "abd"));
    assert!(asc::util::text::str_le("abc", "abc"));
    assert!(!asc::util::text::str_le("abd", "abc"));
    assert!(asc::util::text::str_le("ab", "abc"));
    assert!(asc::util::text::starts_with("abcdef", "abc"));
    assert!(!asc::util::text::starts_with("ab", "abc"));
    assert_eq!(asc::util::text::find_sub("xx tree yy", " tree "), Some(2));
    assert_eq!(asc::util::text::find_sub("xyz", "q"), None);
    assert_eq!(asc::util::text::trim("  a b \t\n"), "a b");
}

#[test]
fn remove_prefix_exact_cases() {
    let source = "/home/p/src".to_string();
    let target = "/home/p/target".to_string();
    assert_eq!(
        asc::util::fs::remove_prefix(&"/home/p/src/a.h".to_string(), &source, &target),
        "a.h"
    );
    assert_eq!(
        asc::util::fs::remove_prefix(&"/home/p/target/b/c.h".to_string(), &source, &target),
        "b/c.h"
    );
    assert_eq!(asc::util::fs::remove_prefix(&source, &source, &target), "");
    assert_eq!(asc::util::fs::remove_prefix(&target, &source, &target), "");
    assert_eq!(asc::util::fs::remove_prefix(&"/elsewhere/x".to_string(), &source, &target), "");
}
