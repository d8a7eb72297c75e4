use vstd::prelude::*;

use crate::fs_path::FsPath;
use crate::plugin::{configured_from, Plugin, PluginConfig, PLUGIN_FILENAME};

verus! {

/// The directory that holds one plugin directory per tool.
#[derive(Debug)]
pub struct PluginManager {
    pub plugins_path: FsPath,
}

impl PluginManager {
    pub fn new(plugins_path: FsPath) -> (r: PluginManager)
        ensures
            r.plugins_path == plugins_path,
    {
        PluginManager { plugins_path }
    }

    /// The directory of the plugin of `name`.
    pub fn plugin_dir(&self, name: &str) -> (r: FsPath)
        ensures
            r@ == self.plugins_path@.push(name@),
    {
        self.plugins_path.join(name)
    }

    /// The configuration document of the plugin of `name`.
    pub fn config_file(&self, name: &str) -> (r: FsPath)
        ensures
            r@ == self.plugins_path@.push(name@).push(PLUGIN_FILENAME@),
    {
        self.plugin_dir(name).join(PLUGIN_FILENAME)
    }

    /// The plugin of `name`, given its parsed configuration document (`None`
    /// when it has none).
    pub fn get_plugin(&self, name: &str, config: Option<PluginConfig>) -> (r: Plugin)
        ensures
            r.name@ == name@,
            r.dir@ == self.plugins_path@.push(name@),
            configured_from(r.config, config),
    {
        Plugin::new(name, self.plugin_dir(name), config)
    }
}

} // verus!
