//! The fixed file and directory names that the engine and the commands
//! build their paths from.

use vstd::prelude::*;

verus! {

pub const VCPKG_DIR_NAME: &'static str = "vcpkg";

pub const VCPKG_PORTS_DIR_NAME: &'static str = "ports/";

pub const VCPKG_VERSIONS_DIR_NAME: &'static str = "versions";

pub const VCPKG_BASELINE_JSON_FILE_NAME: &'static str = "baseline.json";

pub const VCPKG_SCRIPTS_DIR_NAME: &'static str = "scripts";

pub const VCPKG_BUILD_SYSTEMS_DIR_NAME: &'static str = "buildsystems";

pub const VCPKG_CMAKE_FILE_NAME: &'static str = "vcpkg.cmake";

pub const VCPKG_INDEX_DIR_NAME: &'static str = "index";

pub const VCPKG_SEARCH_INDEX_JSON_FILE_NAME: &'static str = "search_index.json";

pub const VCPKG_TREE_INDEX_JSON_FILE_NAME: &'static str = "tree_index.json";

pub const VPCKG_DOWNLOADS_DIR_NAME: &'static str = "downloads";

pub const VCPKG_BINARY_CACHE_DIR_NAME: &'static str = "archives";

pub const ASC_TOML_FILE_NAME: &'static str = "asc.toml";

pub const ASC_PROJECT_DIR_NAME: &'static str = ".asc";

pub const ASC_TARGET_DIR_NAME: &'static str = "target";

pub const SRC_DIR_NAME: &'static str = "src";

} // verus!
