use asc::cli::commands::{ConfigType, InitArgs, RunArgs, VcpkgAction};
use asc::config::project::{EntryConfig, ProjectConfig};
use asc::config::system_paths::DataPath;

#[test]
fn init_package_builds_a_package_table() {
    let args = InitArgs::default();
    let conf = args.init_package("demo").expect("a nonempty name initialises");
    let package = conf.package.expect("package table present");
    assert_eq!(package.name, "demo");
    assert_eq!(package.edition, "2024");
    assert!(!package.version.is_empty());
    assert!(conf.workspace.is_none());
    assert!(conf.bins.is_empty() && conf.libs.is_empty());
}

#[test]
fn init_package_rejects_an_empty_name() {
    let args = InitArgs::default();
    assert!(args.init_package("").is_none());
    assert!(args.init_bin("").is_none());
    assert!(args.init_lib("").is_none());
}

#[test]
fn init_workspace_keeps_each_member_once() {
    let args = InitArgs {
        lib: false,
        workspace: true,
        members: Some(vec!["a".to_string(), "b".to_string(), "a".to_string()]),
    };
    let conf = args.exec("ignored").expect("valid members initialise");
    let ws = conf.workspace.expect("workspace table present");
    assert_eq!(ws.members, vec!["a".to_string(), "b".to_string()]);
    assert!(conf.package.is_none());
}

#[test]
fn init_workspace_rejects_empty_member_lists_and_names() {
    let none = InitArgs { lib: false, workspace: true, members: Some(vec![]) };
    assert!(none.exec("x").is_none());
    let empty_name = InitArgs {
        lib: false,
        workspace: true,
        members: Some(vec!["a".to_string(), "".to_string()]),
    };
    assert!(empty_name.exec("x").is_none());
}

fn bin(name: &str) -> EntryConfig {
    EntryConfig {
        name: name.to_string(),
        source_dir: String::new(),
        source_file: String::new(),
        shared: None,
    }
}

#[test]
fn run_bin_takes_the_only_binary() {
    let conf = ProjectConfig { bins: vec![bin("tool")], ..Default::default() };
    let args = RunArgs::default();
    assert_eq!(args.run_bin(&conf).unwrap(), "target/tool/Debug/tool");
}

#[test]
fn run_bin_needs_a_name_among_several() {
    let conf = ProjectConfig { bins: vec![bin("one"), bin("two")], ..Default::default() };
    let unnamed = RunArgs::default();
    assert!(unnamed.run_bin(&conf).is_none());
    let named = RunArgs {
        name: Some("two".to_string()),
        args: None,
        config: ConfigType::Release,
    };
    assert_eq!(named.run_bin(&conf).unwrap(), "target/two/Release/two");
    let missing = RunArgs { name: Some("three".to_string()), args: None, config: ConfigType::Debug };
    assert!(missing.run_bin(&conf).is_none());
}

#[test]
fn config_and_action_names() {
    assert_eq!(ConfigType::Debug.as_str(), "Debug");
    assert_eq!(ConfigType::Release.as_str(), "Release");
    assert_eq!(VcpkgAction::Update.as_str(), "update");
    assert_eq!(VcpkgAction::SetValue.as_str(), "set");
    assert_eq!(VcpkgAction::GetValue.as_str(), "get");
    assert_eq!(VcpkgAction::Index.as_str(), "index");
}

#[test]
fn registry_paths_are_joined_exactly() {
    assert_eq!(
        DataPath::vcpkg_versions_port_json_path("/data/vcpkg", "zlib"),
        "/data/vcpkg/versions/z-/zlib.json"
    );
    assert_eq!(
        DataPath::vcpkg_versions_baseline_json_path("/data/vcpkg"),
        "/data/vcpkg/versions/baseline.json"
    );
    assert_eq!(
        DataPath::vcpkg_scripts_build_systems_cmake_path("/data/vcpkg"),
        "/data/vcpkg/scripts/buildsystems/vcpkg.cmake"
    );
    assert_eq!(DataPath::vcpkg_search_index_json("/idx"), "/idx/search_index.json");
    assert_eq!(DataPath::vcpkg_tree_index_json("/idx"), "/idx/tree_index.json");
    assert_eq!(asc::config::system_paths::build("/a", "b"), "/a/b");
}

#[test]
fn default_dirs_end_with_their_fixed_names() {
    assert!(DataPath::vcpkg_default_clone_dir().ends_with("/vcpkg"));
    assert!(DataPath::vcpkg_default_index_dir().ends_with("/index"));
    assert!(DataPath::vcpkg_default_downloads_dir().ends_with("/downloads"));
    assert!(DataPath::vcpkg_default_binary_cache_dir().ends_with("/archives"));
}
