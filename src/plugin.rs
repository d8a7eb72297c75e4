use vstd::prelude::*;

use crate::fs_path::FsPath;
use crate::record_file::strings_view;

verus! {

/// The bin directory of an installed version when its plugin names none.
pub const DEFAULT_DIR: &'static str = "bin";

/// Name of the configuration document in a plugin's directory.
pub const PLUGIN_FILENAME: &'static str = "plugin.yaml";

/// A tool's plugin: its name, its directory and its configuration.
#[derive(Debug)]
pub struct Plugin {
    pub name: String,
    pub dir: FsPath,
    pub config: PluginConfig,
}

/// Where a tool's executables lie below an installed version, and which
/// environment variables they need.
#[derive(Debug, PartialEq, Eq)]
pub struct PluginConfig {
    pub bin_dirs: Vec<String>,
    pub env_vars: Vec<EnvVar>,
}

/// An environment variable that the tool's executables are launched with.
#[derive(Debug, PartialEq, Eq)]
pub struct EnvVar {
    pub name: String,
    pub value: EnvVarValue,
    /// A variable of the caller's environment that, when set, gives the value
    /// instead.
    pub overriding_name: Option<String>,
}

/// The value of an environment variable: given as is, or as a path below the
/// installed version's root.
#[derive(Debug, PartialEq, Eq)]
pub enum EnvVarValue {
    Value { value: String },
    RelativeInstallPath { relative_inst_path: String },
}

impl PluginConfig {
    /// The bin directories used when a plugin names none.
    pub fn default_bin_dirs() -> (r: Vec<String>)
        ensures
            strings_view(r@) == seq![DEFAULT_DIR@],
    {
        let mut dirs: Vec<String> = Vec::new();
        dirs.push(String::from_str(DEFAULT_DIR));
        assert(strings_view(dirs@) =~= seq![DEFAULT_DIR@]);
        dirs
    }

    /// The configuration of a plugin that has no configuration document.
    pub fn default_config() -> (r: PluginConfig)
        ensures
            configured_from(r, None),
    {
        PluginConfig { bin_dirs: PluginConfig::default_bin_dirs(), env_vars: Vec::new() }
    }
}

/// `r` is the configuration that a plugin gets from the document `config`
/// (`None`: it has none): the default bin directory where none is named.
pub open spec fn configured_from(r: PluginConfig, config: Option<PluginConfig>) -> bool {
    match config {
        None => strings_view(r.bin_dirs@) == seq![DEFAULT_DIR@] && r.env_vars@.len() == 0,
        Some(c) => {
            &&& r.env_vars == c.env_vars
            &&& c.bin_dirs@.len() == 0 ==> strings_view(r.bin_dirs@) == seq![DEFAULT_DIR@]
            &&& c.bin_dirs@.len() > 0 ==> r.bin_dirs == c.bin_dirs
        },
    }
}

impl Plugin {
    /// The plugin `name` kept in `path`. `config` is its parsed configuration
    /// document, `None` when the directory holds none. An empty list of bin
    /// directories, given or not, is replaced by the default one.
    pub fn new(name: &str, path: FsPath, config: Option<PluginConfig>) -> (r: Plugin)
        ensures
            r.name@ == name@,
            r.dir == path,
            configured_from(r.config, config),
    {
        let config = match config {
            None => PluginConfig::default_config(),
            Some(c) => {
                if c.bin_dirs.len() == 0 {
                    PluginConfig { bin_dirs: PluginConfig::default_bin_dirs(), env_vars: c.env_vars }
                } else {
                    c
                }
            },
        };
        Plugin { name: String::from_str(name), dir: path, config }
    }
}

} // verus!
