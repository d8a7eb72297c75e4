//! The lookup of a shim command, from its name to the context of the
//! configured version of its tool, as a sequence of stages. Each stage names
//! what it needs from the outside (a directory listing, a file, the
//! environment) and decides, from what it is handed, the next stage, the
//! context found, or the error that ends the lookup.

use vstd::prelude::*;

use crate::common::{command_name, configured_version, installed_context, owning_tool, Cmd};
use crate::error::AsdfwError;
use crate::executable_context::{install_root_of, ExecutableContext};
use crate::fs_path::FsPath;
use crate::plugin::{configured_from, Plugin, PluginConfig};
use crate::plugin_manager::PluginManager;
use crate::record_file::{invalid_line_error, str_view};
use crate::runtime::RuntimeEnvironment;
use crate::shims::{resolved_command, Shims};
use crate::shims_db::{decodes_to, map_of, records_entries, records_valid};
use crate::tool_versions::{records_view, resolve_version, ToolVersions};

verus! {

/// What every stage of a lookup works with.
#[derive(Debug)]
pub struct LookupBase {
    pub shims: Shims,
    pub global_file: FsPath,
    pub current_dir: FsPath,
}

/// Needs the names of the files in the shims directory, to resolve `name`.
#[derive(Debug)]
pub struct ShimNamesStage {
    pub base: LookupBase,
    pub name: String,
    pub tool: Option<String>,
}

/// Needs the bytes of the shim database, to find the tool of `cmd_name`.
#[derive(Debug)]
pub struct DatabaseStage {
    pub base: LookupBase,
    pub cmd_name: String,
}

/// Needs the parsed configuration document of the plugin of `tool` (`None`
/// when it has none).
#[derive(Debug)]
pub struct PluginStage {
    pub base: LookupBase,
    pub cmd_name: String,
    pub tool: String,
}

/// Needs the sources of the version of the tool: the value of its override
/// variable, the record files from the current directory up, and the global
/// record file.
#[derive(Debug)]
pub struct VersionStage {
    pub base: LookupBase,
    pub cmd_name: String,
    pub plugin: Plugin,
    pub versions: ToolVersions,
}

/// Needs to know whether `install_root` is an existing directory.
#[derive(Debug)]
pub struct InstallRootStage {
    pub base: LookupBase,
    pub cmd_name: String,
    pub plugin: Plugin,
    pub version: String,
    pub install_root: FsPath,
}

/// Where a lookup stands.
#[derive(Debug)]
pub enum Lookup {
    NeedShimNames(ShimNamesStage),
    NeedDatabase(DatabaseStage),
    NeedPluginConfig(PluginStage),
    NeedVersionSources(VersionStage),
    NeedInstallRoot(InstallRootStage),
    Found(ExecutableContext),
    Failed(AsdfwError),
}

/// `base` holds the paths of `env`.
pub open spec fn base_for(base: LookupBase, env: RuntimeEnvironment) -> bool {
    &&& base.shims.path@ == env.shims_db@
    &&& base.shims.tools_install_dir@ == env.installs_dir@
    &&& base.shims.shims_dir@ == env.shims_dir@
    &&& base.shims.shim_exe@ == env.shim_exe@
    &&& base.shims.plugin_manager.plugins_path@ == env.plugins_dir@
    &&& base.global_file@ == env.global_tool_versions_file@
    &&& base.current_dir@ == env.current_dir@
}

/// The stage after the command name is known: the database decides the tool,
/// unless the tool is given.
pub open spec fn after_command(r: Lookup, base: LookupBase, cmd_name: Seq<char>, tool: Option<String>) -> bool {
    match tool {
        Some(t) => r matches Lookup::NeedPluginConfig(s) && s.base == base && s.cmd_name@ == cmd_name
            && s.tool == t,
        None => r matches Lookup::NeedDatabase(s) && s.base == base && s.cmd_name@ == cmd_name,
    }
}

fn command_found(base: LookupBase, cmd_name: String, tool: Option<String>) -> (r: Lookup)
    ensures
        after_command(r, base, cmd_name@, tool),
{
    match tool {
        Some(tool) => Lookup::NeedPluginConfig(PluginStage { base, cmd_name, tool }),
        None => Lookup::NeedDatabase(DatabaseStage { base, cmd_name }),
    }
}

impl Lookup {
    /// Starts the lookup of `cmd` in `env`, with its tool given or not.
    /// `install_dir_exists` tells whether the installs directory exists.
    pub fn start(env: &RuntimeEnvironment, cmd: Cmd, tool: Option<String>, install_dir_exists: bool) -> (r: Lookup)
        ensures
            !install_dir_exists ==> (r matches Lookup::Failed(e) && e is InstallRootMissing),
            install_dir_exists ==> base_for(r.base_of(), *env) && match cmd {
                Cmd::UnResolved(n) => r matches Lookup::NeedShimNames(s) && s.name == n && s.tool == tool,
                Cmd::Resolved(n) => after_command(r, r.base_of(), n@, tool),
            },
    {
        let pm = PluginManager::new(env.plugins_dir.duplicate());
        let shims = match Shims::new(
            env.shims_db.duplicate(),
            env.installs_dir.duplicate(),
            env.shims_dir.duplicate(),
            env.shim_exe.duplicate(),
            pm,
            install_dir_exists,
        ) {
            Ok(shims) => shims,
            Err(e) => return Lookup::Failed(e),
        };
        let base = LookupBase {
            shims,
            global_file: env.global_tool_versions_file.duplicate(),
            current_dir: env.current_dir.duplicate(),
        };
        match cmd {
            Cmd::UnResolved(name) => Lookup::NeedShimNames(ShimNamesStage { base, name, tool }),
            Cmd::Resolved(name) => command_found(base, name, tool),
        }
    }

    pub open spec fn base_of(self) -> LookupBase {
        match self {
            Lookup::NeedShimNames(s) => s.base,
            Lookup::NeedDatabase(s) => s.base,
            Lookup::NeedPluginConfig(s) => s.base,
            Lookup::NeedVersionSources(s) => s.base,
            Lookup::NeedInstallRoot(s) => s.base,
            _ => arbitrary(),
        }
    }
}

impl ShimNamesStage {
    /// The stage after the shims directory was listed.
    pub fn next(self, shim_names: &Vec<String>) -> (r: Lookup)
        ensures
            match resolved_command(self.name@, shim_names@.map_values(|s: String| s@)) {
                Some(n) => after_command(r, self.base, n, self.tool),
                None => r matches Lookup::Failed(AsdfwError::ShimNotFound { name }) && name@ == self.name@,
            },
    {
        let ShimNamesStage { base, name, tool } = self;
        match command_name(&base.shims, &Cmd::UnResolved(name), shim_names) {
            Ok(cmd_name) => command_found(base, cmd_name, tool),
            Err(e) => Lookup::Failed(e),
        }
    }
}

impl DatabaseStage {
    /// The stage after the shim database was read.
    pub fn next(self, contents: &Vec<u8>) -> (r: Lookup)
        ensures
            forall|rs: Seq<(Seq<char>, Seq<char>, u8)>| #[trigger]
                decodes_to(contents@, rs) ==> if !records_valid(rs) {
                    r matches Lookup::Failed(AsdfwError::InvalidShimsDb)
                } else if map_of(records_entries(rs)).contains_key(self.cmd_name@) {
                    r matches Lookup::NeedPluginConfig(s) && s.base == self.base && s.cmd_name == self.cmd_name
                        && s.tool@ == map_of(records_entries(rs))[self.cmd_name@].0
                } else {
                    r matches Lookup::Failed(AsdfwError::ToolNotConfigured { command }) && command@
                        == self.cmd_name@
                },
            r matches Lookup::Failed(e) ==> e is InvalidShimsDb || e is ToolNotConfigured,
    {
        let DatabaseStage { base, cmd_name } = self;
        match owning_tool(&base.shims, contents, cmd_name.as_str()) {
            Ok(tool) => Lookup::NeedPluginConfig(PluginStage { base, cmd_name, tool }),
            Err(e) => Lookup::Failed(e),
        }
    }
}

impl PluginStage {
    /// The configuration document to read.
    pub fn config_file(&self) -> (r: FsPath)
        ensures
            r@ == self.base.shims.plugin_manager.plugins_path@.push(self.tool@).push(
                crate::plugin::PLUGIN_FILENAME@,
            ),
    {
        self.base.shims.plugin_manager.config_file(self.tool.as_str())
    }

    /// The stage after the configuration document was read and parsed.
    pub fn next(self, config: Option<PluginConfig>) -> (r: Lookup)
        ensures
            r matches Lookup::NeedVersionSources(s) && s.base == self.base && s.cmd_name == self.cmd_name
                && s.plugin.name@ == self.tool@ && s.plugin.dir@
                == self.base.shims.plugin_manager.plugins_path@.push(self.tool@) && configured_from(
                s.plugin.config,
                config,
            ) && s.versions.tool@ == self.tool@ && s.versions.global_path@ == self.base.global_file@
                && s.versions.current_dir@ == self.base.current_dir@,
    {
        let PluginStage { base, cmd_name, tool } = self;
        let plugin = base.shims.plugin_manager.get_plugin(tool.as_str(), config);
        let versions = ToolVersions::new(base.global_file.duplicate(), base.current_dir.duplicate(), tool.as_str());
        Lookup::NeedVersionSources(VersionStage { base, cmd_name, plugin, versions })
    }
}

impl VersionStage {
    /// The stage after the version sources were read: `env_value` is the value
    /// of the variable that `versions.env_var_name()` names, `local_records`
    /// the record files of the current directory and its ancestors, nearest
    /// first, `global_record` the global record file.
    pub fn next(self, env_value: Option<&str>, local_records: &Vec<Option<String>>, global_record: Option<&str>) -> (r: Lookup)
        ensures
            match resolve_version(str_view(env_value), records_view(local_records@), str_view(global_record), self.versions.tool@) {
                Ok(Some(v)) => r matches Lookup::NeedInstallRoot(s) && s.base == self.base && s.cmd_name
                    == self.cmd_name && s.plugin == self.plugin && s.version@ == v && s.install_root@
                    == install_root_of(self.base.shims.tools_install_dir@, self.plugin.name@, v),
                Ok(None) => r matches Lookup::Failed(AsdfwError::VersionNotConfigured { tool }) && tool@
                    == self.versions.tool@,
                Err(l) => r matches Lookup::Failed(e) && invalid_line_error(e, l),
            },
    {
        let VersionStage { base, cmd_name, plugin, versions } = self;
        match configured_version(&versions, env_value, local_records, global_record) {
            Ok(version) => {
                let install_root = ExecutableContext::install_root_for(
                    &plugin,
                    version.as_str(),
                    &base.shims.tools_install_dir,
                );
                Lookup::NeedInstallRoot(InstallRootStage { base, cmd_name, plugin, version, install_root })
            },
            Err(e) => Lookup::Failed(e),
        }
    }
}

impl InstallRootStage {
    /// The stage after the install root was looked for: the context when it
    /// exists, `VersionNotInstalled` when not.
    pub fn next(self, install_root_exists: bool) -> (r: Lookup)
        ensures
            if install_root_exists {
                r matches Lookup::Found(ec) && ec.cmd_name@ == self.cmd_name@ && ec.plugin == self.plugin
                    && ec.version@ == self.version@ && ec.tool_install_root@ == install_root_of(
                    self.base.shims.tools_install_dir@,
                    self.plugin.name@,
                    self.version@,
                )
            } else {
                r matches Lookup::Failed(AsdfwError::VersionNotInstalled { tool, version }) && tool@
                    == self.plugin.name@ && version@ == self.version@
            },
    {
        let InstallRootStage { base, cmd_name, plugin, version, install_root } = self;
        match installed_context(cmd_name.as_str(), plugin, version.as_str(), &base.shims.tools_install_dir, install_root_exists) {
            Ok(ec) => Lookup::Found(ec),
            Err(e) => Lookup::Failed(e),
        }
    }
}

} // verus!
