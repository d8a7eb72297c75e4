use vstd::prelude::*;

use crate::fs_path::FsPath;

verus! {

/// The ways in which resolving or maintaining shims and versions fails.
#[derive(Debug)]
pub enum AsdfwError {
    /// The installs directory is missing or is not a directory.
    InstallRootMissing { path: FsPath },
    /// Two different tools provide an executable of the same name.
    ShimConflict { shim: String, tool: String, other_tool: String },
    /// No shim answers to the command name, with or without an extension.
    ShimNotFound { name: String },
    /// The shim database records no tool for the command.
    ToolNotConfigured { command: String },
    /// No version of the tool is configured anywhere in the cascade.
    VersionNotConfigured { tool: String },
    /// A version is configured but its directory is not installed.
    VersionNotInstalled { tool: String, version: String },
    /// The configured version does not hold the command in any bin directory.
    CommandMissingInVersion { command: String, tool: String, version: String },
    /// A line of a tool-versions record is not `<tool> <version>`.
    InvalidVersionsLine { line: String },
    /// A plugin configuration document could not be read.
    PluginConfigParse { tool: String, reason: String },
    /// The stored shim database is not a valid encoding of a database.
    InvalidShimsDb,
    /// The shim database could not be encoded.
    ShimsDbEncoding,
}

/// The text that describes an error.
pub open spec fn message_of(e: AsdfwError) -> Seq<char> {
    match e {
        AsdfwError::InstallRootMissing { .. } => "Supplied tools install dir is not an existing directory"@,
        AsdfwError::ShimConflict { shim, tool, other_tool } => "'"@ + shim@ + "' appears in two tools: '"@
            + tool@ + "' and '"@ + other_tool@ + "'"@,
        AsdfwError::ShimNotFound { name } => "Could not find shim named: '"@ + name@ + "'"@,
        AsdfwError::ToolNotConfigured { command } => "No tool configured for the command: '"@ + command@
            + "'"@,
        AsdfwError::VersionNotConfigured { tool } => "No version configured for '"@ + tool@ + "'"@,
        AsdfwError::VersionNotInstalled { tool, version } => "Version '"@ + version@ + "' of '"@ + tool@
            + "' is configured but not installed"@,
        AsdfwError::CommandMissingInVersion { command, tool, version } => "'"@ + command@
            + "' does not exist in version '"@ + version@ + "' of '"@ + tool@ + "'"@,
        AsdfwError::InvalidVersionsLine { line } => "Invalid tools versions line: "@ + line@,
        AsdfwError::PluginConfigParse { tool, reason } => "Parsing plugin config for '"@ + tool@ + "': "@
            + reason@,
        AsdfwError::InvalidShimsDb => "Error deserializing ShimsDB"@,
        AsdfwError::ShimsDbEncoding => "Error serializing ShimsDB"@,
    }
}

impl AsdfwError {
    /// A sentence that describes the error.
    pub fn message(&self) -> (r: String)
        ensures
            r@ == message_of(*self),
    {
        match self {
            AsdfwError::InstallRootMissing { .. } => String::from_str(
                "Supplied tools install dir is not an existing directory",
            ),
            AsdfwError::ShimConflict { shim, tool, other_tool } => {
                let mut r = String::from_str("'");
                r.append(shim.as_str());
                r.append("' appears in two tools: '");
                r.append(tool.as_str());
                r.append("' and '");
                r.append(other_tool.as_str());
                r.append("'");
                r
            },
            AsdfwError::ShimNotFound { name } => {
                let mut r = String::from_str("Could not find shim named: '");
                r.append(name.as_str());
                r.append("'");
                r
            },
            AsdfwError::ToolNotConfigured { command } => {
                let mut r = String::from_str("No tool configured for the command: '");
                r.append(command.as_str());
                r.append("'");
                r
            },
            AsdfwError::VersionNotConfigured { tool } => {
                let mut r = String::from_str("No version configured for '");
                r.append(tool.as_str());
                r.append("'");
                r
            },
            AsdfwError::VersionNotInstalled { tool, version } => {
                let mut r = String::from_str("Version '");
                r.append(version.as_str());
                r.append("' of '");
                r.append(tool.as_str());
                r.append("' is configured but not installed");
                r
            },
            AsdfwError::CommandMissingInVersion { command, tool, version } => {
                let mut r = String::from_str("'");
                r.append(command.as_str());
                r.append("' does not exist in version '");
                r.append(version.as_str());
                r.append("' of '");
                r.append(tool.as_str());
                r.append("'");
                r
            },
            AsdfwError::InvalidVersionsLine { line } => {
                let mut r = String::from_str("Invalid tools versions line: ");
                r.append(line.as_str());
                r
            },
            AsdfwError::PluginConfigParse { tool, reason } => {
                let mut r = String::from_str("Parsing plugin config for '");
                r.append(tool.as_str());
                r.append("': ");
                r.append(reason.as_str());
                r
            },
            AsdfwError::InvalidShimsDb => String::from_str("Error deserializing ShimsDB"),
            AsdfwError::ShimsDbEncoding => String::from_str("Error serializing ShimsDB"),
        }
    }
}

} // verus!
