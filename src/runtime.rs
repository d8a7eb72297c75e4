use vstd::prelude::*;

use crate::fs_path::FsPath;

verus! {

/// The environment variable that moves the application directory away from
/// the home directory.
pub const CUSTOM_APP_DIR_ENV: &'static str = "ASDFW_CUSTOM_APPDIR";

/// The paths that a run works with.
#[derive(Debug)]
pub struct RuntimeEnvironment {
    pub current_dir: FsPath,
    pub home_dir: FsPath,
    pub shims_db: FsPath,
    pub installs_dir: FsPath,
    pub shims_dir: FsPath,
    pub shim_exe: FsPath,
    pub plugins_dir: FsPath,
    pub log_dir: FsPath,
    pub global_tool_versions_file: FsPath,
}

/// The application directory: the one that `CUSTOM_APP_DIR_ENV` gives, else
/// `.asdfw` in the home directory.
pub open spec fn app_dir_of(home_dir: Seq<Seq<char>>, custom_app_dir: Option<FsPath>) -> Seq<Seq<char>> {
    match custom_app_dir {
        Some(d) => d@,
        None => home_dir.push(".asdfw"@),
    }
}

impl RuntimeEnvironment {
    /// The paths of a run from the home directory, the current directory and
    /// the value of `CUSTOM_APP_DIR_ENV`, if it is set.
    pub fn new(home_dir: FsPath, current_dir: FsPath, custom_app_dir: Option<FsPath>) -> (r: RuntimeEnvironment)
        ensures
            r.home_dir == home_dir,
            r.current_dir == current_dir,
            r.shims_db@ == app_dir_of(home_dir@, custom_app_dir).push("shims.db"@),
            r.installs_dir@ == app_dir_of(home_dir@, custom_app_dir).push("installs"@),
            r.shims_dir@ == app_dir_of(home_dir@, custom_app_dir).push("shims"@),
            r.shim_exe@ == app_dir_of(home_dir@, custom_app_dir).push("lib"@).push(
                "shim.exe"@,
            ),
            r.plugins_dir@ == app_dir_of(home_dir@, custom_app_dir).push("plugins"@),
            r.log_dir@ == app_dir_of(home_dir@, custom_app_dir).push("logs"@),
            r.global_tool_versions_file@ == home_dir@.push(".tool-versions"@),
    {
        let app_dir = match custom_app_dir {
            Some(d) => d,
            None => home_dir.join(".asdfw"),
        };
        let shims_db = app_dir.join("shims.db");
        let installs_dir = app_dir.join("installs");
        let shims_dir = app_dir.join("shims");
        let shim_exe = app_dir.join("lib").join("shim.exe");
        let plugins_dir = app_dir.join("plugins");
        let log_dir = app_dir.join("logs");
        let global_tool_versions_file = home_dir.join(".tool-versions");
        RuntimeEnvironment {
            current_dir,
            home_dir,
            shims_db,
            installs_dir,
            shims_dir,
            shim_exe,
            plugins_dir,
            log_dir,
            global_tool_versions_file,
        }
    }
}

} // verus!
