//! The command argument types, and the decisions the commands make over
//! plain values: which configuration a scaffolding command writes, and
//! which binary a run command launches. Reading and writing files, and
//! launching processes, stay with the surrounding program.

use vstd::prelude::*;

use crate::config::project::{
    date_version_spec, EntryConfig, PackageConfig, ProjectConfig, WorkSpaceConfig, PROJECT_EDITION,
};
use crate::config::relative_paths;
use crate::util::text;

verus! {

/// The build configuration a command acts on.
#[derive(Clone, Copy, Debug, Default, PartialEq, Eq, Structural)]
pub enum ConfigType {
    #[default]
    Debug,
    Release,
}

/// The name a configuration goes by in paths and tool arguments.
pub open spec fn config_type_name(c: ConfigType) -> Seq<char> {
    match c {
        ConfigType::Debug => "Debug"@,
        ConfigType::Release => "Release"@,
    }
}

impl ConfigType {
    pub fn as_str(&self) -> (r: &'static str)
        ensures
            r@ == config_type_name(*self),
    {
        match self {
            ConfigType::Debug => "Debug",
            ConfigType::Release => "Release",
        }
    }
}

/// What the registry-management command is asked to do.
#[derive(Clone, Copy, Debug, Default, PartialEq, Eq, Structural)]
pub enum VcpkgAction {
    #[default]
    Update,
    SetValue,
    GetValue,
    Index,
}

/// The name an action goes by on the command line.
pub open spec fn vcpkg_action_name(a: VcpkgAction) -> Seq<char> {
    match a {
        VcpkgAction::Update => "update"@,
        VcpkgAction::SetValue => "set"@,
        VcpkgAction::GetValue => "get"@,
        VcpkgAction::Index => "index"@,
    }
}

impl VcpkgAction {
    pub fn as_str(&self) -> (r: &'static str)
        ensures
            r@ == vcpkg_action_name(*self),
    {
        match self {
            VcpkgAction::Update => "update",
            VcpkgAction::SetValue => "set",
            VcpkgAction::GetValue => "get",
            VcpkgAction::Index => "index",
        }
    }
}

/// Each name of `s`, kept at its first occurrence only.
pub open spec fn dedup_first(s: Seq<Seq<char>>) -> Seq<Seq<char>>
    decreases s.len(),
{
    if s.len() == 0 {
        Seq::<Seq<char>>::empty()
    } else {
        let prev = dedup_first(s.drop_last());
        if prev.contains(s.last()) {
            prev
        } else {
            prev.push(s.last())
        }
    }
}

/// The configuration a freshly scaffolded package gets: a package table
/// carrying the name, a date version and the fixed edition, and nothing
/// else.
pub open spec fn is_package_config_for(c: ProjectConfig, name: Seq<char>) -> bool {
    &&& c.workspace is None
    &&& c.package is Some
    &&& c.package.unwrap().name@ == name
    &&& c.package.unwrap().edition@ == PROJECT_EDITION@
    &&& c.package.unwrap().description@.len() == 0
    &&& c.package.unwrap().license@.len() == 0
    &&& c.package.unwrap().repository@.len() == 0
    &&& (exists|y: int, m: u32, d: u32|
        c.package.unwrap().version@ == date_version_spec(y, m, d) && 1 <= m <= 12 && 1 <= d <= 31)
    &&& c.bins@.len() == 0
    &&& c.libs@.len() == 0
    &&& c.features@.len() == 0
    &&& c.dependencies@.len() == 0
}

/// The configuration a freshly scaffolded workspace gets: only a
/// workspace table holding the distinct member names, first occurrences
/// first.
pub open spec fn is_workspace_config_for(c: ProjectConfig, members: Seq<Seq<char>>) -> bool {
    &&& c.package is None
    &&& c.workspace is Some
    &&& c.workspace.unwrap().members@.map_values(|s: String| s@) == dedup_first(members)
    &&& c.bins@.len() == 0
    &&& c.libs@.len() == 0
    &&& c.features@.len() == 0
    &&& c.dependencies@.len() == 0
}

/// Arguments of the command that initialises a project in place.
#[derive(Clone, Debug, Default)]
pub struct InitArgs {
    pub lib: bool,
    pub workspace: bool,
    pub members: Option<Vec<String>>,
}

impl InitArgs {
    /// Decides what to initialise — a workspace when asked for one with
    /// members, else a binary or library package under `name` — and
    /// returns the configuration to write, or nothing where the
    /// arguments are invalid.
    pub fn exec(&self, name: &str) -> (r: Option<ProjectConfig>)
        ensures
            self.workspace && self.members is Some ==> ((r is Some) == (
            self.members.unwrap()@.len() > 0 && (forall|i: int|
                0 <= i < self.members.unwrap()@.len() ==> self.members.unwrap()@[i]@.len() > 0))
                && (r is Some ==> is_workspace_config_for(
                r.unwrap(),
                self.members.unwrap()@.map_values(|s: String| s@),
            ))),
            !(self.workspace && self.members is Some) ==> ((r is Some) == (name@.len() > 0) && (
            r is Some ==> is_package_config_for(r.unwrap(), name@))),
    {
        if self.workspace && self.members.is_some() {
            self.init_workspace()
        } else if !self.lib {
            self.init_bin(name)
        } else {
            self.init_lib(name)
        }
    }

    /// A binary package is scaffolded exactly as a package.
    pub fn init_bin(&self, name: &str) -> (r: Option<ProjectConfig>)
        ensures
            (r is Some) == (name@.len() > 0),
            r is Some ==> is_package_config_for(r.unwrap(), name@),
    {
        self.init_package(name)
    }

    /// A library package is scaffolded exactly as a package.
    pub fn init_lib(&self, name: &str) -> (r: Option<ProjectConfig>)
        ensures
            (r is Some) == (name@.len() > 0),
            r is Some ==> is_package_config_for(r.unwrap(), name@),
    {
        self.init_package(name)
    }

    /// The configuration of a fresh package: nothing for an empty name,
    /// else a package table carrying the name, today's date as the
    /// version, and the fixed edition.
    pub fn init_package(&self, name: &str) -> (r: Option<ProjectConfig>)
        ensures
            (r is Some) == (name@.len() > 0),
            r is Some ==> is_package_config_for(r.unwrap(), name@),
    {
        if name.unicode_len() == 0 {
            return None;
        }
        let package = PackageConfig {
            name: name.to_owned(),
            version: ProjectConfig::version_date(),
            edition: PROJECT_EDITION.to_owned(),
            description: String::new(),
            license: String::new(),
            repository: String::new(),
        };
        Some(
            ProjectConfig {
                workspace: None,
                package: Some(package),
                bins: Vec::new(),
                libs: Vec::new(),
                features: Vec::new(),
                dependencies: Vec::new(),
            },
        )
    }

    /// The configuration of a fresh workspace: nothing when no member is
    /// given or a member name is empty, else a workspace table holding
    /// each member once, first occurrences first.
    pub fn init_workspace(&self) -> (r: Option<ProjectConfig>)
        requires
            self.members is Some,
        ensures
            (r is Some) == (self.members.unwrap()@.len() > 0 && (forall|i: int|
                0 <= i < self.members.unwrap()@.len() ==> self.members.unwrap()@[i]@.len() > 0)),
            r is Some ==> is_workspace_config_for(
                r.unwrap(),
                self.members.unwrap()@.map_values(|s: String| s@),
            ),
    {
        let members = match &self.members {
            Some(m) => m,
            None => {
                proof {
                    assert(false);
                }
                return None;
            },
        };
        if members.len() == 0 {
            return None;
        }
        let ghost views = members@.map_values(|s: String| s@);
        let mut kept: Vec<String> = Vec::new();
        let mut has_error = false;
        let n = members.len();
        let mut i: usize = 0;
        while i < n
            invariant
                0 <= i <= n,
                n == members@.len(),
                views == members@.map_values(|s: String| s@),
                kept@.map_values(|s: String| s@) == dedup_first(views.take(i as int)),
                has_error == !(forall|j: int| 0 <= j < i ==> views[j].len() > 0),
            decreases n - i,
        {
            proof {
                assert(views.take(i + 1).drop_last() =~= views.take(i as int));
                assert(views.take(i + 1).last() == views[i as int]);
            }
            let m = &members[i];
            if !text::contains_str(&kept, m.as_str()) {
                let ghost before = kept@;
                kept.push(m.clone());
                proof {
                    assert(kept@.map_values(|s: String| s@) =~= before.map_values(|s: String| s@)
                        .push(views[i as int]));
                }
                if m.as_str().unicode_len() == 0 {
                    has_error = true;
                }
            } else {
                if m.as_str().unicode_len() == 0 {
                    has_error = true;
                }
            }
            i = i + 1;
        }
        proof {
            assert(views.take(n as int) =~= views);
            assert(members@ == self.members.unwrap()@);
            if has_error {
                let j = choose|j: int| 0 <= j < n && !(views[j].len() > 0);
                assert(members@[j]@ == views[j]);
            } else {
                assert forall|k: int|
                    0 <= k < n implies #[trigger] self.members.unwrap()@[k]@.len() > 0 by {
                    assert(views[k] == members@[k]@);
                }
            }
        }
        if has_error {
            return None;
        }
        Some(
            ProjectConfig {
                workspace: Some(WorkSpaceConfig { members: kept }),
                package: None,
                bins: Vec::new(),
                libs: Vec::new(),
                features: Vec::new(),
                dependencies: Vec::new(),
            },
        )
    }
}

/// The name of the binary a run command launches: the only binary where
/// there is exactly one, else the one named on the command line; empty
/// where neither picks one.
pub open spec fn chosen_bin_name(bins: Seq<EntryConfig>, arg: Option<Seq<char>>) -> Seq<char> {
    if bins.len() == 1 {
        bins[0].name@
    } else if arg is Some && (exists|i: int|
        0 <= i < bins.len() && (#[trigger] bins[i].name@) == arg.unwrap()) {
        arg.unwrap()
    } else {
        Seq::<char>::empty()
    }
}

/// The first binary entry carrying the wanted name.
fn find_bin(bins: &Vec<EntryConfig>, wanted: &str) -> (r: Option<usize>)
    ensures
        match r {
            Some(i) => i < bins@.len() && bins@[i as int].name@ == wanted@,
            None => forall|j: int| 0 <= j < bins@.len() ==> (#[trigger] bins@[j].name@) != wanted@,
        },
{
    let n = bins.len();
    let mut i: usize = 0;
    while i < n
        invariant
            0 <= i <= n,
            n == bins@.len(),
            forall|j: int| 0 <= j < i ==> (#[trigger] bins@[j].name@) != wanted@,
        decreases n - i,
    {
        if text::str_eq(bins[i].name.as_str(), wanted) {
            return Some(i);
        }
        i = i + 1;
    }
    None
}

/// Where a binary's built executable lives.
pub open spec fn bin_path_spec(bin_name: Seq<char>, config_name: Seq<char>) -> Seq<char> {
    relative_paths::ASC_TARGET_DIR_NAME@ + "/"@ + bin_name + "/"@ + config_name + "/"@ + bin_name
}

/// Arguments of the command that runs a built binary.
#[derive(Clone, Debug, Default)]
pub struct RunArgs {
    pub name: Option<String>,
    pub args: Option<Vec<String>>,
    pub config: ConfigType,
}

impl RunArgs {
    /// The executable to launch for this project: the path of the chosen
    /// binary under the target directory, or nothing where no binary can
    /// be chosen.
    pub fn run_bin(&self, project_conf: &ProjectConfig) -> (r: Option<String>)
        ensures
            (r is Some) == (chosen_bin_name(project_conf.bins@, opt_string_view(self.name)).len()
                > 0),
            r is Some ==> r.unwrap()@ == bin_path_spec(
                chosen_bin_name(project_conf.bins@, opt_string_view(self.name)),
                config_type_name(self.config),
            ),
    {
        let bins = &project_conf.bins;
        let bin_name: Option<&String> = if bins.len() == 1 {
            Some(&bins[0].name)
        } else {
            match &self.name {
                None => None,
                Some(wanted) => match find_bin(bins, wanted.as_str()) {
                    Some(i) => Some(&bins[i].name),
                    None => None,
                },
            }
        };
        match bin_name {
            None => {
                proof {
                    assert(chosen_bin_name(project_conf.bins@, opt_string_view(self.name)).len()
                        == 0);
                }
                None
            },
            Some(name) => {
                if name.as_str().unicode_len() == 0 {
                    return None;
                }
                proof {
                    assert(chosen_bin_name(project_conf.bins@, opt_string_view(self.name))
                        == name@);
                }
                let mut s = String::new();
                s.append(relative_paths::ASC_TARGET_DIR_NAME);
                s.append("/");
                s.append(name.as_str());
                s.append("/");
                s.append(self.config.as_str());
                s.append("/");
                s.append(name.as_str());
                proof {
                    assert(s@ =~= bin_path_spec(name@, config_type_name(self.config)));
                }
                Some(s)
            },
        }
    }
}

/// The view of an optional string argument.
pub open spec fn opt_string_view(s: Option<String>) -> Option<Seq<char>> {
    match s {
        Some(x) => Some(x@),
        None => None,
    }
}

/// Arguments of the command that scaffolds a new project directory.
#[derive(Clone, Debug, Default)]
pub struct NewArgs {
    pub name: Option<String>,
    pub lib: bool,
    pub workspace: bool,
    pub member: Option<Vec<String>>,
}

/// Arguments of the command that publishes a package to a registry.
#[derive(Clone, Debug, Default)]
pub struct PublishArgs {
    pub package: Option<String>,
}

/// What one scan of a package works on.
#[derive(Clone, Debug, Default)]
pub struct ScanOptions {
    pub project: String,
    pub project_dir: String,
    pub target_dir: String,
    pub source_dir: String,
    pub entry_point_source: String,
    pub include_dirs: Vec<String>,
    pub shared_lib: bool,
    pub static_lib: bool,
    pub cmake_minimum_version: String,
    pub cmake_config: String,
}

/// Arguments of the command that scans sources and generates build files.
#[derive(Clone, Debug, Default)]
pub struct ScanArgs {
    pub cmake_minimum_version: String,
}

/// Arguments of the command that installs built artifacts.
#[derive(Clone, Debug, Default)]
pub struct InstallArgs {
    pub prefix: String,
    pub config: ConfigType,
}

} // verus!
