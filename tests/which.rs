use asdfw::common::{find_executable, Cmd};
use asdfw::error::AsdfwError;
use asdfw::executable_context::ExecutableContext;
use asdfw::fs_path::FsPath;
use asdfw::lookup::Lookup;
use asdfw::plugin_manager::PluginManager;
use asdfw::runtime::RuntimeEnvironment;
use asdfw::shims::{InstalledFile, Shims};

/// An installation: each tool's versions with the files of their `bin`
/// directory, the global record, and shims that are not in the database.
struct Fixture {
    installed: Vec<(String, String, Vec<String>)>,
    global: String,
    extra_shims: Vec<String>,
}

fn root() -> FsPath {
    FsPath::new("/tmp/asdfw-which")
}

fn installs() -> FsPath {
    root().join("installs")
}

impl Fixture {
    fn new(versions: &str) -> Fixture {
        let mut fx = Fixture { installed: vec![], global: versions.to_string(), extra_shims: vec![] };
        fx.install("mytool1", "1.2.4", &["cmd1.exe"]);
        fx.install("mytool1", "1.1", &["cmd1.exe"]);
        fx.install("mytool2", "v1.17", &["cmd2.exe"]);
        fx.install("mytool2", "v1.19", &["cmd2.exe"]);
        fx.install("mytool3", "2.5", &["cmd3.exe"]);
        fx.install("mytool4", "0.12", &["cmd4.exe", "cmd5.exe"]);
        fx
    }

    fn install(&mut self, tool: &str, version: &str, files: &[&str]) {
        self.installed.push((tool.to_string(), version.to_string(), files.iter().map(|f| f.to_string()).collect()));
    }

    fn version_installed(&self, tool: &str, version: &str) -> bool {
        self.installed.iter().any(|(t, v, _)| t == tool && v == version)
    }

    fn file_exists(&self, path: &FsPath) -> bool {
        self.installed.iter().any(|(t, v, files)| {
            files.iter().any(|f| installs().join(t).join(v).join("bin").join(f) == *path)
        })
    }

    fn shims(&self) -> Shims {
        Shims::new(
            root().join("shims.db"),
            installs(),
            root().join("shims"),
            root().join("shim.exe"),
            PluginManager::new(root().join("plugins")),
            true,
        )
        .unwrap()
    }

    /// The full path of `cmd`, found by running a lookup on the fixture.
    fn which(&self, cmd: &str, tool: Option<&str>) -> Result<FsPath, AsdfwError> {
        let shims = self.shims();
        let found: Vec<InstalledFile> = self
            .installed
            .iter()
            .flat_map(|(t, _, files)| {
                files.iter().map(move |f| InstalledFile { tool: t.clone(), file_name: f.clone() })
            })
            .collect();
        let db = shims.generate_db_from_installed_tools(&found)?;
        let bytes = shims.save_db(&db)?;
        let mut names: Vec<String> = db.entries().iter().map(|(n, _)| n.clone()).collect();
        names.extend(self.extra_shims.iter().cloned());
        let env = RuntimeEnvironment::new(root().join("home"), root().join("current_dir"), Some(root()));
        let mut lookup = Lookup::start(&env, Cmd::UnResolved(cmd.to_string()), tool.map(|t| t.to_string()), true);
        loop {
            lookup = match lookup {
                Lookup::NeedShimNames(stage) => stage.next(&names),
                Lookup::NeedDatabase(stage) => stage.next(&bytes),
                Lookup::NeedPluginConfig(stage) => stage.next(None),
                Lookup::NeedVersionSources(stage) => stage.next(None, &vec![None], Some(&self.global)),
                Lookup::NeedInstallRoot(stage) => {
                    let exists = self
                        .installed
                        .iter()
                        .any(|(t, v, _)| installs().join(t).join(v) == stage.install_root);
                    stage.next(exists)
                }
                Lookup::Found(ec) => {
                    let present: Vec<bool> =
                        ec.executable_candidates().iter().map(|p| self.file_exists(p)).collect();
                    return find_executable(&ec, &present);
                }
                Lookup::Failed(e) => return Err(e),
            };
        }
    }
}

#[test]
fn which_with_no_tool_exists_should_return_error_no_tool() {
    let mut fx = Fixture::new("mytool1 1.2.4");
    fx.extra_shims.push("no-cmd.exe".to_string());
    let msg = fx.which("no-cmd.exe", None).unwrap_err().message();
    assert!(msg.contains("No tool configured"), "Wrong error message for no tool configured: {}", &msg);
}

#[test]
fn which_with_no_version_configured_should_return_error_no_version() {
    let fx = Fixture::new("mytool1 1.2.4");
    let msg = fx.which("cmd3.exe", None).unwrap_err().message();
    assert!(msg.contains("No version"), "wrong error message for no configured version: {}", &msg);
}

#[test]
fn which_with_invalid_command_should_return_matching_error() {
    let cmd_name = "nosuchshim";
    let fx = Fixture::new("mytool1 1.2.4");
    let msg = fx.which(cmd_name, None).unwrap_err().message();
    assert!(msg.contains("Could not find shim"), "should explain that shim does not exist, got: '{msg}'");
    assert!(msg.contains(cmd_name), "should repeat shim name. got: '{msg}'");
}

#[test]
fn which_should_return_valid_executable_path_searching_with_full_name() {
    let mut fx = Fixture::new("mytool5 1.0");
    fx.install("mytool5", "1.0", &["mycmd.exe"]);
    let expected = installs().join("mytool5").join("1.0").join("bin").join("mycmd.exe");
    assert_eq!(fx.which("mycmd.exe", None).unwrap(), expected, "wrong path from `which`. case: searching with full name");
}

#[test]
fn which_should_return_valid_executable_path_missing_exe_extension() {
    let mut fx = Fixture::new("mytool5 1.0");
    fx.install("mytool5", "1.0", &["mycmd.exe"]);
    let expected = installs().join("mytool5").join("1.0").join("bin").join("mycmd.exe");
    assert_eq!(fx.which("mycmd", None).unwrap(), expected, "wrong path from `which`. case: missing '.exe' extension");
}

#[test]
fn which_with_version_configured_but_not_installed_should_return_matching_error() {
    let version = "1.2.5";
    let mut fx = Fixture::new("mytool5 1.2.5");
    fx.install("mytool5", "1.2.4", &["cmd10.exe"]);
    let result = fx.which("cmd10.exe", None);
    assert!(result.is_err(), "missing version should return error");
    let msg = result.unwrap_err().message();
    let expected_msg = "configured but not installed";
    assert!(msg.contains(expected_msg), "Expected error to contain '{expected_msg}', got: '{msg}'");
    assert!(msg.contains(version), "Expected error to reference configured version, got: '{msg}'");
}

#[test]
fn which_with_specific_command_missing_should_return_matching_error() {
    let version = "1.2.5";
    let mut fx = Fixture::new("mytool5 1.2.5");
    fx.install("mytool5", "1.2.5", &["cmd12.exe"]);
    fx.install("mytool5", "1.2.4", &["cmd11.exe", "cmd12.exe"]);
    let result = fx.which("cmd11.exe", None);
    assert!(result.is_err(), "missing version should return error");
    let msg = result.unwrap_err().message();
    let expected_msg = "does not exist in version";
    assert!(msg.contains(expected_msg), "Expected error to contain '{expected_msg}', got: '{msg}'");
    assert!(msg.contains(version), "Expected error to reference configured version, got: '{msg}'");
}

#[test]
fn which_with_specific_tool_does_not_check_for_tool_existance() {
    let tool = "nosuchtool";
    let cmd = "nocmd.exe";
    let fx = Fixture::new("nosuchtool 1.23.4");
    let message = fx.which(cmd, Some(tool)).unwrap_err().message();
    assert!(message.contains("Could not find shim"), "error should complain about finding shim");
    assert!(message.contains(cmd), "error should specify the command");
}

#[test]
fn which_with_installs_root_missing_fails() {
    let r = Shims::new(
        root().join("shims.db"),
        installs(),
        root().join("shims"),
        root().join("shim.exe"),
        PluginManager::new(root().join("plugins")),
        false,
    );
    let msg = r.unwrap_err().message();
    assert!(msg.contains("not an existing directory"), "got: {msg}");
}

#[test]
fn which_resolves_the_install_root_of_the_configured_version() {
    let fx = Fixture::new("mytool1 1.2.4");
    let expected = installs().join("mytool1").join("1.2.4").join("bin").join("cmd1.exe");
    assert_eq!(fx.which("cmd1", None).unwrap(), expected);
    let plugin = fx.shims().plugin_manager.get_plugin("mytool1", None);
    assert_eq!(ExecutableContext::install_root_for(&plugin, "1.1", &installs()), installs().join("mytool1").join("1.1"));
}

#[test]
fn lookup_of_a_resolved_command_with_its_tool_skips_the_database() {
    let env = RuntimeEnvironment::new(root().join("home"), root().join("current_dir"), Some(root()));
    let lookup = Lookup::start(&env, Cmd::Resolved("cmd1.exe".to_string()), Some("mytool1".to_string()), true);
    match lookup {
        Lookup::NeedPluginConfig(stage) => {
            assert_eq!(stage.tool, "mytool1");
            assert_eq!(stage.cmd_name, "cmd1.exe");
            assert_eq!(stage.config_file(), root().join("plugins").join("mytool1").join("plugin.yaml"));
        }
        other => panic!("unexpected stage: {:?}", other),
    }
}

#[test]
fn lookup_without_installs_dir_fails_at_once() {
    let env = RuntimeEnvironment::new(root().join("home"), root().join("current_dir"), Some(root()));
    let lookup = Lookup::start(&env, Cmd::UnResolved("cmd1".to_string()), None, false);
    assert!(matches!(lookup, Lookup::Failed(AsdfwError::InstallRootMissing { .. })));
}

#[test]
fn lookup_reads_the_version_from_the_nearest_record() {
    let env = RuntimeEnvironment::new(root().join("home"), root().join("current_dir"), Some(root()));
    let lookup = Lookup::start(&env, Cmd::Resolved("cmd1.exe".to_string()), Some("mytool1".to_string()), true);
    let stage = match lookup {
        Lookup::NeedPluginConfig(stage) => stage,
        other => panic!("unexpected stage: {:?}", other),
    };
    let stage = match stage.next(None) {
        Lookup::NeedVersionSources(stage) => stage,
        other => panic!("unexpected stage: {:?}", other),
    };
    assert_eq!(stage.versions.env_var_name(), "ASDFW_MYTOOL1_VERSION");
    let locals = vec![None, Some("mytool1 1.1\r\n".to_string())];
    match stage.next(None, &locals, Some("mytool1 1.2.4\r\n")) {
        Lookup::NeedInstallRoot(stage) => {
            assert_eq!(stage.version, "1.1");
            assert_eq!(stage.install_root, installs().join("mytool1").join("1.1"));
        }
        other => panic!("unexpected stage: {:?}", other),
    }
}
