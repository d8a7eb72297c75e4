use vstd::prelude::*;

use crate::error::AsdfwError;
use crate::executable_context::{candidate_path, first_present, install_root_of, ExecutableContext};
use crate::fs_path::FsPath;
use crate::plugin::Plugin;
use crate::shims::{resolved_command, Shims};
use crate::shims_db::{decodes_to, map_of, records_entries, records_valid};
use crate::record_file::{invalid_line_error, str_view};
use crate::tool_versions::{records_view, resolve_version, ToolVersions};

verus! {

/// A shim command name: as it names an existing shim, or as typed, perhaps
/// without its extension.
#[derive(Debug)]
pub enum Cmd {
    Resolved(String),
    UnResolved(String),
}

/// The name of the shim that `cmd` stands for, given the names of the files
/// in the shims directory.
pub fn command_name(shims: &Shims, cmd: &Cmd, shim_names: &Vec<String>) -> (r: Result<String, AsdfwError>)
    ensures
        match cmd {
            Cmd::Resolved(n) => r matches Ok(x) && x@ == n@,
            Cmd::UnResolved(n) => match resolved_command(n@, shim_names@.map_values(|s: String| s@)) {
                Some(x) => r matches Ok(y) && y@ == x,
                None => r matches Err(AsdfwError::ShimNotFound { name }) && name@ == n@,
            },
        },
{
    match cmd {
        Cmd::Resolved(n) => Ok(n.clone()),
        Cmd::UnResolved(n) => match shims.resolve_command(n.as_str(), shim_names) {
            Some(x) => Ok(x),
            None => Err(AsdfwError::ShimNotFound { name: n.clone() }),
        },
    }
}

/// The tool that owns the shim `cmd_name` in the database held in
/// `contents`.
pub fn owning_tool(shims: &Shims, contents: &Vec<u8>, cmd_name: &str) -> (r: Result<String, AsdfwError>)
    ensures
        forall|rs: Seq<(Seq<char>, Seq<char>, u8)>| #[trigger]
            decodes_to(contents@, rs) ==> if !records_valid(rs) {
                r matches Err(AsdfwError::InvalidShimsDb)
            } else if map_of(records_entries(rs)).contains_key(cmd_name@) {
                r matches Ok(t) && t@ == map_of(records_entries(rs))[cmd_name@].0
            } else {
                r matches Err(AsdfwError::ToolNotConfigured { command }) && command@ == cmd_name@
            },
        r matches Err(e) ==> e is InvalidShimsDb || e is ToolNotConfigured,
{
    match shims.find_tool(contents, cmd_name)? {
        Some(t) => Ok(t),
        None => Err(AsdfwError::ToolNotConfigured { command: String::from_str(cmd_name) }),
    }
}

/// The version configured for the tool of `tvs`, from the sources that
/// `ToolVersions::get_version` takes; `VersionNotConfigured` when none names it.
pub fn configured_version(
    tvs: &ToolVersions,
    env_value: Option<&str>,
    local_records: &Vec<Option<String>>,
    global_record: Option<&str>,
) -> (r: Result<String, AsdfwError>)
    ensures
        match resolve_version(str_view(env_value), records_view(local_records@), str_view(global_record), tvs.tool@) {
            Ok(Some(v)) => r matches Ok(w) && w@ == v,
            Ok(None) => r matches Err(AsdfwError::VersionNotConfigured { tool }) && tool@ == tvs.tool@,
            Err(l) => r matches Err(e) && invalid_line_error(e, l),
        },
{
    match tvs.get_version(env_value, local_records, global_record)? {
        Some(v) => Ok(v),
        None => Err(AsdfwError::VersionNotConfigured { tool: tvs.tool.clone() }),
    }
}

/// The context of `cmd_name` in `version` of the plugin's tool;
/// `VersionNotInstalled` when the version's directory does not exist.
pub fn installed_context(
    cmd_name: &str,
    plugin: Plugin,
    version: &str,
    tools_install_dir: &FsPath,
    install_root_exists: bool,
) -> (r: Result<ExecutableContext, AsdfwError>)
    ensures
        if install_root_exists {
            r matches Ok(ec) && ec.cmd_name@ == cmd_name@ && ec.plugin == plugin && ec.version@
                == version@ && ec.tool_install_root@ == install_root_of(
                tools_install_dir@,
                plugin.name@,
                version@,
            )
        } else {
            r matches Err(AsdfwError::VersionNotInstalled { tool, version: v }) && tool@ == plugin.name@
                && v@ == version@
        },
{
    let tool = plugin.name.clone();
    match ExecutableContext::new(cmd_name, plugin, version, tools_install_dir, install_root_exists) {
        Some(ec) => Ok(ec),
        None => Err(AsdfwError::VersionNotInstalled { tool, version: String::from_str(version) }),
    }
}

/// The full path of the command of `ec`, where `present` tells which of its
/// `executable_candidates` exist; `CommandMissingInVersion` when none does.
pub fn find_executable(ec: &ExecutableContext, present: &Vec<bool>) -> (r: Result<FsPath, AsdfwError>)
    ensures
        match first_present(present@, ec.plugin.config.bin_dirs@.len() as int) {
            Some(i) => r matches Ok(p) && p@ == candidate_path(
                ec.tool_install_root@,
                ec.plugin.config.bin_dirs@[i]@,
                ec.cmd_name@,
            ),
            None => r matches Err(AsdfwError::CommandMissingInVersion { command, tool, version })
                && command@ == ec.cmd_name@ && tool@ == ec.plugin.name@ && version@ == ec.version@,
        },
{
    match ec.get_full_executable_path(present) {
        Some(p) => Ok(p),
        None => Err(
            AsdfwError::CommandMissingInVersion {
                command: ec.cmd_name.clone(),
                tool: ec.plugin.name.clone(),
                version: ec.version.clone(),
            },
        ),
    }
}

} // verus!
