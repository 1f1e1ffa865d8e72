//! The absolute paths of the engine's artifacts and of the registry clone:
//! each is the platform data directory, or a caller-given directory, with
//! the fixed names of `relative_paths` joined on.

use vstd::prelude::*;

use crate::config::relative_paths;

verus! {

/// `prefix` and `name` joined with the path separator.
pub fn build(prefix: &str, name: &str) -> (r: String)
    ensures
        r@ == prefix@ + "/"@ + name@,
{
    let mut s = String::new();
    s.append(prefix);
    s.append("/");
    s.append(name);
    s
}

/// Relies on directories::ProjectDirs::from: the platform's per-user data
/// directory for this application; empty where the platform defines none
/// or the path is not text.
#[verifier::external_body]
fn project_data_dir() -> (r: String) {
    match directories::ProjectDirs::from("", "", "asc") {
        Some(dirs) => match dirs.data_dir().to_str() {
            Some(p) => p.to_string(),
            None => String::new(),
        },
        None => String::new(),
    }
}

pub struct DataPath {}

impl DataPath {
    /// The data directory all default paths start from, with the path
    /// separators normalised to forward slashes.
    fn prefix() -> (r: String)
        ensures
            forall|i: int| 0 <= i < r@.len() ==> r@[i] != '\\',
    {
        let raw = project_data_dir();
        let n = raw.as_str().unicode_len();
        let mut out = String::new();
        let mut i: usize = 0;
        while i < n
            invariant
                0 <= i <= n,
                n == raw@.len(),
                forall|j: int| 0 <= j < out@.len() ==> out@[j] != '\\',
            decreases n - i,
        {
            let c = raw.as_str().get_char(i);
            if c == '\\' {
                out.append("/");
                proof {
                    reveal_strlit("/");
                }
            } else {
                let piece = raw.as_str().substring_char(i, i + 1);
                out.append(piece);
                proof {
                    assert(piece@[0] == raw@[i as int]);
                }
            }
            i = i + 1;
        }
        out
    }

    /// The default directory the registry is cloned into.
    pub fn vcpkg_default_clone_dir() -> (r: String)
        ensures
            ends_with(r@, "/"@ + relative_paths::VCPKG_DIR_NAME@),
    {
        let pre = Self::prefix();
        let r = build(pre.as_str(), relative_paths::VCPKG_DIR_NAME);
        proof {
            assert(r@ =~= pre@ + ("/"@ + relative_paths::VCPKG_DIR_NAME@));
            lemma_concat_ends_with(r@, "/"@ + relative_paths::VCPKG_DIR_NAME@);
        }
        r
    }

    /// The version-history document of one package inside a registry
    /// clone: under the versions directory, in the subdirectory named
    /// after the package's first letter.
    pub fn vcpkg_versions_port_json_path(vcpkg_clone_dir: &str, port_name: &str) -> (r: String)
        requires
            port_name@.len() > 0,
        ensures
            r@ == vcpkg_clone_dir@ + "/"@ + relative_paths::VCPKG_VERSIONS_DIR_NAME@ + "/"@ + seq![
                port_name@[0],
            ] + "-"@ + "/"@ + port_name@ + ".json"@,
    {
        let mut s = String::new();
        s.append(vcpkg_clone_dir);
        s.append("/");
        s.append(relative_paths::VCPKG_VERSIONS_DIR_NAME);
        s.append("/");
        let first = port_name.substring_char(0, 1);
        s.append(first);
        s.append("-");
        s.append("/");
        s.append(port_name);
        s.append(".json");
        proof {
            assert(first@ =~= seq![port_name@[0]]);
            assert(s@ =~= vcpkg_clone_dir@ + "/"@ + relative_paths::VCPKG_VERSIONS_DIR_NAME@ + "/"@
                + seq![port_name@[0]] + "-"@ + "/"@ + port_name@ + ".json"@);
        }
        s
    }

    /// The registry's published baseline document inside a clone.
    pub fn vcpkg_versions_baseline_json_path(vcpkg_clone_dir: &str) -> (r: String)
        ensures
            r@ == vcpkg_clone_dir@ + "/"@ + relative_paths::VCPKG_VERSIONS_DIR_NAME@ + "/"@
                + relative_paths::VCPKG_BASELINE_JSON_FILE_NAME@,
    {
        let s = build(vcpkg_clone_dir, relative_paths::VCPKG_VERSIONS_DIR_NAME);
        let r = build(s.as_str(), relative_paths::VCPKG_BASELINE_JSON_FILE_NAME);
        proof {
            assert(r@ =~= vcpkg_clone_dir@ + "/"@ + relative_paths::VCPKG_VERSIONS_DIR_NAME@ + "/"@
                + relative_paths::VCPKG_BASELINE_JSON_FILE_NAME@);
        }
        r
    }

    /// The build-system integration script inside a registry clone.
    pub fn vcpkg_scripts_build_systems_cmake_path(vcpkg_clone_dir: &str) -> (r: String)
        ensures
            r@ == vcpkg_clone_dir@ + "/"@ + relative_paths::VCPKG_SCRIPTS_DIR_NAME@ + "/"@
                + relative_paths::VCPKG_BUILD_SYSTEMS_DIR_NAME@ + "/"@
                + relative_paths::VCPKG_CMAKE_FILE_NAME@,
    {
        let a = build(vcpkg_clone_dir, relative_paths::VCPKG_SCRIPTS_DIR_NAME);
        let b = build(a.as_str(), relative_paths::VCPKG_BUILD_SYSTEMS_DIR_NAME);
        let r = build(b.as_str(), relative_paths::VCPKG_CMAKE_FILE_NAME);
        proof {
            assert(r@ =~= vcpkg_clone_dir@ + "/"@ + relative_paths::VCPKG_SCRIPTS_DIR_NAME@ + "/"@
                + relative_paths::VCPKG_BUILD_SYSTEMS_DIR_NAME@ + "/"@
                + relative_paths::VCPKG_CMAKE_FILE_NAME@);
        }
        r
    }

    /// The default directory the two index documents live in.
    pub fn vcpkg_default_index_dir() -> (r: String)
        ensures
            ends_with(r@, "/"@ + relative_paths::VCPKG_INDEX_DIR_NAME@),
    {
        let pre = Self::prefix();
        let r = build(pre.as_str(), relative_paths::VCPKG_INDEX_DIR_NAME);
        proof {
            assert(r@ =~= pre@ + ("/"@ + relative_paths::VCPKG_INDEX_DIR_NAME@));
            lemma_concat_ends_with(r@, "/"@ + relative_paths::VCPKG_INDEX_DIR_NAME@);
        }
        r
    }

    /// The search-index document inside an index directory.
    pub fn vcpkg_search_index_json(index_dir: &str) -> (r: String)
        ensures
            r@ == index_dir@ + "/"@ + relative_paths::VCPKG_SEARCH_INDEX_JSON_FILE_NAME@,
    {
        build(index_dir, relative_paths::VCPKG_SEARCH_INDEX_JSON_FILE_NAME)
    }

    /// The tree-index document inside an index directory.
    pub fn vcpkg_tree_index_json(index_dir: &str) -> (r: String)
        ensures
            r@ == index_dir@ + "/"@ + relative_paths::VCPKG_TREE_INDEX_JSON_FILE_NAME@,
    {
        build(index_dir, relative_paths::VCPKG_TREE_INDEX_JSON_FILE_NAME)
    }

    /// The default directory for registry downloads.
    pub fn vcpkg_default_downloads_dir() -> (r: String)
        ensures
            ends_with(r@, "/"@ + relative_paths::VPCKG_DOWNLOADS_DIR_NAME@),
    {
        let pre = Self::prefix();
        let r = build(pre.as_str(), relative_paths::VPCKG_DOWNLOADS_DIR_NAME);
        proof {
            assert(r@ =~= pre@ + ("/"@ + relative_paths::VPCKG_DOWNLOADS_DIR_NAME@));
            lemma_concat_ends_with(r@, "/"@ + relative_paths::VPCKG_DOWNLOADS_DIR_NAME@);
        }
        r
    }

    /// The default directory for the registry's binary cache.
    pub fn vcpkg_default_binary_cache_dir() -> (r: String)
        ensures
            ends_with(r@, "/"@ + relative_paths::VCPKG_BINARY_CACHE_DIR_NAME@),
    {
        let pre = Self::prefix();
        let r = build(pre.as_str(), relative_paths::VCPKG_BINARY_CACHE_DIR_NAME);
        proof {
            assert(r@ =~= pre@ + ("/"@ + relative_paths::VCPKG_BINARY_CACHE_DIR_NAME@));
            lemma_concat_ends_with(r@, "/"@ + relative_paths::VCPKG_BINARY_CACHE_DIR_NAME@);
        }
        r
    }
}

/// `s` ends with `suffix`.
pub open spec fn ends_with(s: Seq<char>, suffix: Seq<char>) -> bool {
    suffix.len() <= s.len() && s.subrange(s.len() - suffix.len(), s.len() as int) == suffix
}

proof fn lemma_concat_ends_with(s: Seq<char>, suffix: Seq<char>)
    requires
        exists|p: Seq<char>| s == p + suffix,
    ensures
        ends_with(s, suffix),
{
    let p = choose|p: Seq<char>| s == p + suffix;
    assert(s.subrange(s.len() - suffix.len(), s.len() as int) =~= suffix);
}

} // verus!
