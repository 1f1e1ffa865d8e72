use asc::vcpkg::index::{VcpkgPortTreeVersion, VcpkgPortVersion};

fn tree_version(git_tree: &str, port_version: u32) -> VcpkgPortTreeVersion {
    VcpkgPortTreeVersion {
        git_tree: git_tree.to_string(),
        version: None,
        version_date: None,
        version_semver: None,
        version_string: None,
        port_version,
    }
}

#[test]
fn bare_version_for_revision_zero() {
    let v = VcpkgPortVersion { baseline: "1.2.3".to_string(), port_version: 0 };
    assert_eq!(v.format_version_text(), "1.2.3");
}

#[test]
fn revision_suffix_for_nonzero_revision() {
    let v = VcpkgPortVersion { baseline: "1.2.3".to_string(), port_version: 2 };
    assert_eq!(v.format_version_text(), "1.2.3#2");
}

#[test]
fn large_revision_digits() {
    let v = VcpkgPortVersion { baseline: "0.9".to_string(), port_version: 4294967295 };
    assert_eq!(v.format_version_text(), "0.9#4294967295");
}

#[test]
fn tree_version_prefers_plain_version() {
    let mut v = tree_version("t", 0);
    v.version = Some("3.1.4".to_string());
    v.version_date = Some("2024-01-01".to_string());
    v.version_semver = Some("3.1.4-rc1".to_string());
    v.version_string = Some("three".to_string());
    assert_eq!(v.format_version_text(), "3.1.4");
}

#[test]
fn tree_version_falls_back_to_date() {
    let mut v = tree_version("t", 0);
    v.version_date = Some("2024-01-01".to_string());
    v.version_semver = Some("3.1.4".to_string());
    v.version_string = Some("three".to_string());
    assert_eq!(v.format_version_text(), "2024-01-01");
}

#[test]
fn tree_version_prefers_raw_string_over_semver() {
    let mut v = tree_version("t", 0);
    v.version_semver = Some("3.1.4".to_string());
    v.version_string = Some("three".to_string());
    assert_eq!(v.format_version_text(), "three");
}

#[test]
fn tree_version_uses_semver_last() {
    let mut v = tree_version("t", 7);
    v.version_semver = Some("3.1.4".to_string());
    assert_eq!(v.format_version_text(), "3.1.4#7");
}

#[test]
fn tree_version_with_no_encoding_is_bare_suffix() {
    let v = tree_version("t", 5);
    assert_eq!(v.format_version_text(), "#5");
}

#[test]
fn decimal_formatting_exact_values() {
    assert_eq!(asc::util::text::u32_to_dec_string(0), "0");
    assert_eq!(asc::util::text::u32_to_dec_string(7), "7");
    assert_eq!(asc::util::text::u32_to_dec_string(10), "10");
    assert_eq!(asc::util::text::u32_to_dec_string(205), "205");
    assert_eq!(asc::util::text::u32_to_dec_string(4294967295), "4294967295");
}
