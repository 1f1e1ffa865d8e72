//! The project configuration data: the package table, workspace members,
//! binary and library entries, dependencies, and the documents the
//! publishing workflow writes into a registry.

use vstd::prelude::*;

use crate::util::text;

verus! {

/// The edition tag written into a freshly scaffolded project.
pub const PROJECT_EDITION: &'static str = "2024";

/// The `[package]` table of a project configuration.
#[derive(Clone, Debug, Default)]
pub struct PackageConfig {
    pub name: String,
    pub version: String,
    pub edition: String,
    pub description: String,
    pub license: String,
    pub repository: String,
}

/// One binary or library entry of a project.
#[derive(Clone, Debug, Default)]
pub struct EntryConfig {
    pub name: String,
    pub source_dir: String,
    pub source_file: String,
    pub shared: Option<bool>,
}

/// One dependency of a project.
#[derive(Clone, Debug, Default)]
pub struct DependencyConfig {
    pub version: String,
    pub find_packages: Vec<String>,
    pub link_libraries: Vec<String>,
    pub features: Vec<String>,
}

/// The workspace members, each name held once.
#[derive(Clone, Debug, Default)]
pub struct WorkSpaceConfig {
    pub members: Vec<String>,
}

/// A whole project configuration: a workspace, a package, or both absent
/// where the file was empty.
#[derive(Clone, Debug, Default)]
pub struct ProjectConfig {
    pub workspace: Option<WorkSpaceConfig>,
    pub package: Option<PackageConfig>,
    pub bins: Vec<EntryConfig>,
    pub libs: Vec<EntryConfig>,
    pub features: Vec<(String, Vec<String>)>,
    pub dependencies: Vec<(String, DependencyConfig)>,
}

/// The record of what an install step copied.
#[derive(Clone, Debug, Default)]
pub struct InstalledFiles {
    pub prefix: String,
    pub files: Vec<String>,
}

/// One dependency entry of a registry manifest document.
#[derive(Clone, Debug, Default)]
pub struct VcpkgDependencyDesc {
    pub name: String,
    pub default_features: Option<bool>,
    pub features: Vec<Vec<(String, String)>>,
}

/// A registry manifest document.
#[derive(Clone, Debug, Default)]
pub struct VcpkgDependency {
    pub dependencies: Vec<VcpkgDependencyDesc>,
    pub overrides: Vec<Vec<(String, String)>>,
}

/// One registry of a registry-set document.
#[derive(Clone, Debug, Default)]
pub struct VcpkgRegistry {
    pub kind: String,
    pub name: String,
    pub location: String,
}

/// The default registry of a registry-set document.
#[derive(Clone, Debug, Default)]
pub struct VcpkgDefaultRegistry {
    pub kind: String,
    pub baseline: String,
    pub repository: String,
}

/// A registry-set document.
#[derive(Clone, Debug, Default)]
pub struct VcpkgConfiguration {
    pub default_registry: VcpkgDefaultRegistry,
    pub registries: Vec<VcpkgRegistry>,
}

/// Relies on chrono::Local::now and chrono::Datelike: the local calendar
/// date now; the month is within 1..=12 and the day within 1..=31.
#[verifier::external_body]
fn local_ymd() -> (r: (i32, u32, u32))
    ensures
        1 <= r.1 <= 12,
        1 <= r.2 <= 31,
{
    let now = chrono::Local::now();
    (
        chrono::Datelike::year(&now),
        chrono::Datelike::month(&now),
        chrono::Datelike::day(&now),
    )
}

/// `year.month.day`, the version string a scaffolded package starts with.
pub open spec fn date_version_spec(year: int, month: u32, day: u32) -> Seq<char> {
    (if year < 0 {
        seq!['-'] + text::dec_digits((-year) as nat)
    } else {
        text::dec_digits(year as nat)
    }) + seq!['.'] + text::dec_digits(month as nat) + seq!['.'] + text::dec_digits(day as nat)
}

/// The date version text for the given calendar date.
pub fn format_date_version(year: i32, month: u32, day: u32) -> (r: String)
    ensures
        r@ == date_version_spec(year as int, month, day),
{
    let mut s = String::new();
    if year < 0 {
        s.append("-");
        let mag: u32 = (-(year as i64)) as u32;
        proof {
            reveal_strlit("-");
            assert(mag == -(year as int));
        }
        let digits = text::u32_to_dec_string(mag);
        s.append(digits.as_str());
    } else {
        let mag: u32 = year as u32;
        let digits = text::u32_to_dec_string(mag);
        s.append(digits.as_str());
    }
    s.append(".");
    let m = text::u32_to_dec_string(month);
    s.append(m.as_str());
    s.append(".");
    let d = text::u32_to_dec_string(day);
    s.append(d.as_str());
    proof {
        reveal_strlit(".");
        assert(s@ =~= date_version_spec(year as int, month, day));
    }
    s
}

impl ProjectConfig {
    /// The version a freshly scaffolded package carries: today's date as
    /// `year.month.day`.
    pub fn version_date() -> (r: String)
        ensures
            exists|y: int, m: u32, d: u32|
                r@ == date_version_spec(y, m, d) && 1 <= m <= 12 && 1 <= d <= 31,
    {
        let (y, m, d) = local_ymd();
        let r = format_date_version(y, m, d);
        proof {
            assert(r@ == date_version_spec(y as int, m, d) && 1 <= m <= 12 && 1 <= d <= 31);
        }
        r
    }
}

} // verus!
