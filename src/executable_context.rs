use vstd::prelude::*;

use crate::fs_path::FsPath;
use crate::plugin::{EnvVar, EnvVarValue, Plugin};

verus! {

/// The value that an environment variable of a launch gets.
#[derive(Debug, PartialEq, Eq)]
pub enum EnvValue {
    Text(String),
    Path(FsPath),
}

/// A command of an installed version of a tool, ready to be located and
/// launched. It only exists for versions whose directory exists.
#[derive(Debug)]
pub struct ExecutableContext {
    pub cmd_name: String,
    pub plugin: Plugin,
    pub version: String,
    pub tool_install_root: FsPath,
}

/// `installs_dir/tool/version`.
pub open spec fn install_root_of(installs_dir: Seq<Seq<char>>, tool: Seq<char>, version: Seq<char>) -> Seq<Seq<char>> {
    installs_dir.push(tool).push(version)
}

/// The path at which the command would lie in the bin directory `bin_dir`.
pub open spec fn candidate_path(root: Seq<Seq<char>>, bin_dir: Seq<char>, cmd: Seq<char>) -> Seq<Seq<char>> {
    root.push(bin_dir).push(cmd)
}

/// The index of the first bin directory that holds the command, where
/// `present[i]` tells whether the `i`-th one does (a missing flag: it does not).
pub open spec fn first_present(present: Seq<bool>, count: int) -> Option<int> {
    if exists|i: int| 0 <= i < count && i < present.len() && present[i] {
        Some(choose|i: int| 0 <= i < count && i < present.len() && present[i] && forall|j: int| 0 <= j < i ==> !present[j])
    } else {
        None
    }
}

/// The pair that `env_var` yields, given the value of its overriding variable
/// in the caller's environment (`None`: unset, or the variable has none).
pub open spec fn env_pair(
    root: Seq<Seq<char>>,
    env_var: EnvVar,
    override_value: Option<Seq<char>>,
    name: Seq<char>,
    value: EnvValue,
) -> bool {
    &&& name == env_var.name@
    &&& match (env_var.overriding_name, override_value) {
        (Some(_), Some(v)) => value matches EnvValue::Text(t) && t@ == v,
        _ => match env_var.value {
            EnvVarValue::Value { value: given } => value matches EnvValue::Text(t) && t@ == given@,
            EnvVarValue::RelativeInstallPath { relative_inst_path } => value matches EnvValue::Path(q)
                && q@ == root.push(relative_inst_path@),
        },
    }
}

pub open spec fn override_at(overrides: Seq<Option<String>>, i: int) -> Option<Seq<char>> {
    if 0 <= i < overrides.len() {
        match overrides[i] {
            Some(v) => Some(v@),
            None => None,
        }
    } else {
        None
    }
}

impl ExecutableContext {
    /// The root of the installed version: `tools_install_dir/tool/version`.
    pub fn install_root_for(plugin: &Plugin, version: &str, tools_install_dir: &FsPath) -> (r: FsPath)
        ensures
            r@ == install_root_of(tools_install_dir@, plugin.name@, version@),
    {
        tools_install_dir.join(plugin.name.as_str()).join(version)
    }

    /// The context of `cmd_name` in `version` of the plugin's tool, where
    /// `install_root_exists` tells whether the directory that
    /// `install_root_for` names exists: `None` when it does not. Whether the
    /// command itself exists is not asked here.
    pub fn new(
        cmd_name: &str,
        plugin: Plugin,
        version: &str,
        tools_install_dir: &FsPath,
        install_root_exists: bool,
    ) -> (r: Option<ExecutableContext>)
        ensures
            install_root_exists <==> r is Some,
            r matches Some(ec) ==> {
                &&& ec.cmd_name@ == cmd_name@
                &&& ec.plugin == plugin
                &&& ec.version@ == version@
                &&& ec.tool_install_root@ == install_root_of(tools_install_dir@, plugin.name@, version@)
            },
    {
        if !install_root_exists {
            return None;
        }
        let tool_install_root = ExecutableContext::install_root_for(&plugin, version, tools_install_dir);
        Some(
            ExecutableContext {
                cmd_name: String::from_str(cmd_name),
                plugin,
                version: String::from_str(version),
                tool_install_root,
            },
        )
    }

    /// Where the command would lie in each bin directory, in their order.
    pub fn executable_candidates(&self) -> (r: Vec<FsPath>)
        ensures
            r@.len() == self.plugin.config.bin_dirs@.len(),
            forall|i: int| 0 <= i < r@.len() ==> #[trigger] r@[i]@ == candidate_path(
                self.tool_install_root@,
                self.plugin.config.bin_dirs@[i]@,
                self.cmd_name@,
            ),
    {
        let dirs = &self.plugin.config.bin_dirs;
        let mut r: Vec<FsPath> = Vec::new();
        let mut k: usize = 0;
        while k < dirs.len()
            invariant
                k <= dirs.len(),
                dirs == &self.plugin.config.bin_dirs,
                r@.len() == k,
                forall|i: int| 0 <= i < k ==> #[trigger] r@[i]@ == candidate_path(
                    self.tool_install_root@,
                    dirs@[i]@,
                    self.cmd_name@,
                ),
            decreases dirs.len() - k,
        {
            r.push(self.tool_install_root.join(dirs[k].as_str()).join(self.cmd_name.as_str()));
            k = k + 1;
        }
        r
    }

    /// The full path of the command: in the first bin directory, in their
    /// declared order, that holds it, where `present[i]` tells whether the
    /// `i`-th of `executable_candidates` exists. `None` when none does.
    pub fn get_full_executable_path(&self, present: &Vec<bool>) -> (r: Option<FsPath>)
        ensures
            match first_present(present@, self.plugin.config.bin_dirs@.len() as int) {
                Some(i) => r matches Some(p) && p@ == candidate_path(
                    self.tool_install_root@,
                    self.plugin.config.bin_dirs@[i]@,
                    self.cmd_name@,
                ),
                None => r is None,
            },
    {
        let dirs = &self.plugin.config.bin_dirs;
        let mut k: usize = 0;
        while k < dirs.len()
            invariant
                k <= dirs.len(),
                dirs == &self.plugin.config.bin_dirs,
                forall|j: int| 0 <= j < k ==> !(j < present@.len() && present@[j]),
            decreases dirs.len() - k,
        {
            if k < present.len() && present[k] {
                proof {
                    let c = |i: int|
                        0 <= i < dirs@.len() && i < present@.len() && present@[i] && forall|j: int|
                            0 <= j < i ==> !present@[j];
                    assert(c(k as int));
                    let i = choose|i: int|
                        0 <= i < dirs@.len() && i < present@.len() && present@[i] && forall|j: int|
                            0 <= j < i ==> !present@[j];
                    if i < k {
                    } else if i > k {
                        assert(!present@[k as int]);
                    }
                }
                return Some(self.tool_install_root.join(dirs[k].as_str()).join(self.cmd_name.as_str()));
            }
            k = k + 1;
        }
        None
    }

    /// The pair that `envvar` yields for this context, where `override_value`
    /// is the value of its overriding variable in the caller's environment,
    /// if it has one and it is set: that value wins; otherwise the literal
    /// value, or the path below the install root.
    pub fn parse_env_var(&self, envvar: &EnvVar, override_value: Option<&str>) -> (r: (String, EnvValue))
        ensures
            env_pair(
                self.tool_install_root@,
                *envvar,
                match override_value {
                    Some(v) => Some(v@),
                    None => None,
                },
                r.0@,
                r.1,
            ),
    {
        let name = envvar.name.clone();
        if envvar.overriding_name.is_some() {
            if let Some(v) = override_value {
                return (name, EnvValue::Text(String::from_str(v)));
            }
        }
        let value = match &envvar.value {
            EnvVarValue::Value { value } => EnvValue::Text(value.clone()),
            EnvVarValue::RelativeInstallPath { relative_inst_path } => EnvValue::Path(
                self.tool_install_root.join(relative_inst_path.as_str()),
            ),
        };
        (name, value)
    }

    /// The environment of a launch: one pair per variable of `env_vars`, in
    /// their order. `overrides[i]` is the value of the overriding variable of
    /// `env_vars[i]` in the caller's environment, if it is set.
    pub fn env_vars_to_envs(&self, env_vars: &Vec<EnvVar>, overrides: &Vec<Option<String>>) -> (r: Vec<
        (String, EnvValue),
    >)
        ensures
            r@.len() == env_vars@.len(),
            forall|i: int|
                0 <= i < r@.len() ==> env_pair(
                    self.tool_install_root@,
                    env_vars@[i],
                    override_at(overrides@, i),
                    (#[trigger] r@[i]).0@,
                    r@[i].1,
                ),
    {
        let mut r: Vec<(String, EnvValue)> = Vec::new();
        let mut k: usize = 0;
        while k < env_vars.len()
            invariant
                k <= env_vars.len(),
                r@.len() == k,
                forall|i: int|
                    0 <= i < k ==> env_pair(
                        self.tool_install_root@,
                        env_vars@[i],
                        override_at(overrides@, i),
                        (#[trigger] r@[i]).0@,
                        r@[i].1,
                    ),
            decreases env_vars.len() - k,
        {
            let override_value: Option<&str> = if k < overrides.len() {
                match &overrides[k] {
                    Some(v) => Some(v.as_str()),
                    None => None,
                }
            } else {
                None
            };
            let pair = self.parse_env_var(&env_vars[k], override_value);
            r.push(pair);
            k = k + 1;
        }
        r
    }
}

} // verus!
