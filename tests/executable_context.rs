use asdfw::common::{command_name, configured_version, find_executable, installed_context, owning_tool, Cmd};
use asdfw::error::AsdfwError;
use asdfw::executable_context::{EnvValue, ExecutableContext};
use asdfw::fs_path::FsPath;
use asdfw::plugin::{EnvVar, EnvVarValue, Plugin, PluginConfig};
use asdfw::plugin_manager::PluginManager;
use asdfw::shims::{InstalledFile, Shims};
use asdfw::tool_versions::ToolVersions;

fn installs_dir() -> FsPath {
    FsPath::new("/tmp/asdfw-test").join("installs")
}

fn plugin(tool: &str, bin_dirs: Option<Vec<&str>>) -> Plugin {
    let config = bin_dirs.map(|dirs| PluginConfig {
        bin_dirs: dirs.iter().map(|d| d.to_string()).collect(),
        env_vars: vec![],
    });
    Plugin::new(tool, FsPath::new("/tmp/asdfw-test").join(tool), config)
}

fn context(cmd: &str, tool: &str, version: &str, bin_dirs: Option<Vec<&str>>) -> ExecutableContext {
    ExecutableContext::new(cmd, plugin(tool, bin_dirs), version, &installs_dir(), true).unwrap()
}

#[test]
fn new_computes_tool_install_root_correctly() {
    let result = ExecutableContext::new("cmd.exe", plugin("mytool", None), "0.1", &installs_dir(), true).unwrap();
    assert_eq!(result.tool_install_root, installs_dir().join("mytool").join("0.1"));
}

#[test]
fn new_returns_error_if_tool_directory_does_not_exist() {
    let result = ExecutableContext::new("cmd.exe", plugin("mytool", None), "0.1", &installs_dir(), false);
    assert!(result.is_none(), "should return none if install root does not exist");
}

#[test]
fn install_root_for_names_tool_and_version() {
    let p = plugin("mytool", None);
    assert_eq!(
        ExecutableContext::install_root_for(&p, "0.1", &installs_dir()),
        installs_dir().join("mytool").join("0.1")
    );
}

#[test]
fn get_full_executable_path_when_version_exists_returns_path() {
    let ec = context("cmd.exe", "mytool", "0.1", None);
    let result = ec.get_full_executable_path(&vec![true]).unwrap();
    let expected = installs_dir().join("mytool").join("0.1").join("bin").join("cmd.exe");
    assert_eq!(result, expected);
    assert_eq!(ec.executable_candidates(), vec![expected]);
}

#[test]
fn get_full_executable_path_when_not_exists_returns_none() {
    let ec = context("cmd.exe", "mytool", "0.1", None);
    let result = ec.get_full_executable_path(&vec![false]);
    assert!(result.is_none(), "if executable not found should return none");
    assert!(ec.get_full_executable_path(&vec![]).is_none());
}

#[test]
fn get_full_executable_path_with_non_default_path_should_work() {
    let ec = context("cmd.exe", "mytool", "0.1", Some(vec!["some\\dir"]));
    let result = ec.get_full_executable_path(&vec![true]).unwrap();
    let expected = installs_dir().join("mytool").join("0.1").join("some\\dir").join("cmd.exe");
    assert_eq!(result, expected);
}

#[test]
fn get_full_executable_path_with_nultiple_paths_should_loop_through_path() {
    let ec = context("cmd.exe", "mytool", "0.1", Some(vec!["some\\dir", "other\\bin"]));
    let result = ec.get_full_executable_path(&vec![false, true]).unwrap();
    let expected = installs_dir().join("mytool").join("0.1").join("other\\bin").join("cmd.exe");
    assert_eq!(result, expected);
}

#[test]
fn get_full_executable_path_takes_the_first_bin_dir_that_holds_it() {
    let ec = context("cmd.exe", "mytool", "0.1", Some(vec!["a", "b", "c"]));
    let result = ec.get_full_executable_path(&vec![false, true, true]).unwrap();
    assert_eq!(result, installs_dir().join("mytool").join("0.1").join("b").join("cmd.exe"));
}

fn env_var(name: &str, overriding_name: Option<&str>, value: EnvVarValue) -> EnvVar {
    EnvVar { name: name.to_string(), overriding_name: overriding_name.map(|s| s.to_string()), value }
}

#[test]
fn parse_env_var_returns_provided_simple_values() {
    let ec = context("cmd.exe", "tool", "0.1", None);
    let ev = env_var("MY_VAR", None, EnvVarValue::Value { value: "A Value".to_string() });
    let env = ec.parse_env_var(&ev, None);
    assert_eq!(env.0, "MY_VAR");
    assert_eq!(env.1, EnvValue::Text("A Value".to_string()));
}

#[test]
fn parse_env_var_parses_relative_paths_correctly() {
    let relative_path = r"some\path";
    let ec = context("cmd.exe", "tool", "0.1", None);
    let ev = env_var("MY_VAR", None, EnvVarValue::RelativeInstallPath { relative_inst_path: relative_path.to_string() });
    let env = ec.parse_env_var(&ev, None);
    assert_eq!(env.0, "MY_VAR");
    assert_eq!(env.1, EnvValue::Path(installs_dir().join("tool").join("0.1").join(relative_path)));
}

#[test]
fn parse_env_var_parses_overrides_correctly() {
    let ec = context("cmd.exe", "tool", "0.1", None);
    let ev = env_var("MY_VAR", Some("OVERRIDING_MY_VAR"), EnvVarValue::Value { value: "A Value".to_string() });
    let env = ec.parse_env_var(&ev, Some("Overriding Value"));
    assert_eq!(env.0, "MY_VAR");
    assert_eq!(env.1, EnvValue::Text("Overriding Value".to_string()));
}

#[test]
fn parse_env_var_ignores_a_value_without_overriding_name() {
    let ec = context("cmd.exe", "tool", "0.1", None);
    let ev = env_var("MY_VAR", None, EnvVarValue::Value { value: "A Value".to_string() });
    assert_eq!(ec.parse_env_var(&ev, Some("other")).1, EnvValue::Text("A Value".to_string()));
}

#[test]
fn env_vars_to_envs_works_correctly() {
    let ec = context("cmd.exe", "tool", "0.1", None);
    let evs = vec![
        env_var("MY_VAR", None, EnvVarValue::Value { value: "A Value".to_string() }),
        env_var("MY_VAR2", Some("NOSUCHVAR"), EnvVarValue::Value { value: "A Value2".to_string() }),
    ];
    let result = ec.env_vars_to_envs(&evs, &vec![None, None]);
    let expected = vec![
        ("MY_VAR".to_string(), EnvValue::Text("A Value".to_string())),
        ("MY_VAR2".to_string(), EnvValue::Text("A Value2".to_string())),
    ];
    assert_eq!(result, expected);
}

#[test]
fn env_vars_to_envs_keeps_the_declared_order() {
    let ec = context("cmd.exe", "tool", "0.1", None);
    let evs = vec![
        env_var("B", Some("B_OVERRIDE"), EnvVarValue::Value { value: "b".to_string() }),
        env_var("A", None, EnvVarValue::RelativeInstallPath { relative_inst_path: "lib".to_string() }),
    ];
    let result = ec.env_vars_to_envs(&evs, &vec![Some("set".to_string())]);
    let expected = vec![
        ("B".to_string(), EnvValue::Text("set".to_string())),
        ("A".to_string(), EnvValue::Path(installs_dir().join("tool").join("0.1").join("lib"))),
    ];
    assert_eq!(result, expected);
}

fn test_shims() -> Shims {
    let root = FsPath::new("/tmp/asdfw-test");
    Shims::new(
        root.join("shims.db"),
        installs_dir(),
        root.join("shims"),
        root.join("shim.exe"),
        PluginManager::new(root.join("plugins")),
        true,
    )
    .unwrap()
}

#[test]
fn command_name_resolves_or_reports_the_shim() {
    let shims = test_shims();
    let names = vec!["cmd1.exe".to_string()];
    assert_eq!(command_name(&shims, &Cmd::UnResolved("cmd1".to_string()), &names).unwrap(), "cmd1.exe");
    assert_eq!(command_name(&shims, &Cmd::Resolved("cmdx.cmd".to_string()), &names).unwrap(), "cmdx.cmd");
    let err = command_name(&shims, &Cmd::UnResolved("nosuchshim".to_string()), &names).unwrap_err();
    let msg = err.message();
    assert!(msg.contains("Could not find shim"), "should explain that shim does not exist, got: '{msg}'");
    assert!(msg.contains("nosuchshim"), "should repeat shim name. got: '{msg}'");
}

#[test]
fn owning_tool_reports_a_shim_without_tool() {
    let shims = test_shims();
    let files = vec![InstalledFile { tool: "mytool1".to_string(), file_name: "cmd1.exe".to_string() }];
    let db = shims.generate_db_from_installed_tools(&files).unwrap();
    let bytes = shims.save_db(&db).unwrap();
    assert_eq!(owning_tool(&shims, &bytes, "cmd1.exe").unwrap(), "mytool1");
    let err = owning_tool(&shims, &bytes, "no-cmd.exe").unwrap_err();
    assert!(err.message().contains("No tool configured"), "got: {}", err.message());
}

#[test]
fn configured_version_reports_a_missing_version() {
    let tvs = ToolVersions::new(FsPath::new("/home/.tool-versions"), FsPath::new("/work"), "mytool3");
    let err = configured_version(&tvs, None, &vec![None], Some("mytool1 1.2.4")).unwrap_err();
    assert!(err.message().contains("No version"), "got: {}", err.message());
    assert_eq!(configured_version(&tvs, None, &vec![], Some("mytool3 2.5")).unwrap(), "2.5");
}

#[test]
fn installed_context_reports_a_missing_version_directory() {
    let err = installed_context("cmd10.exe", plugin("mytool5", None), "1.2.5", &installs_dir(), false).unwrap_err();
    let msg = err.message();
    assert!(msg.contains("configured but not installed"), "got: '{msg}'");
    assert!(msg.contains("1.2.5"), "got: '{msg}'");
}

#[test]
fn find_executable_reports_a_missing_command() {
    let ec = installed_context("cmd11.exe", plugin("mytool5", None), "1.2.5", &installs_dir(), true).unwrap();
    let err = find_executable(&ec, &vec![false]).unwrap_err();
    let msg = err.message();
    assert!(msg.contains("does not exist in version"), "got: '{msg}'");
    assert!(msg.contains("1.2.5"), "got: '{msg}'");
    let path = find_executable(&ec, &vec![true]).unwrap();
    assert_eq!(path, installs_dir().join("mytool5").join("1.2.5").join("bin").join("cmd11.exe"));
    assert!(matches!(find_executable(&ec, &vec![]), Err(AsdfwError::CommandMissingInVersion { .. })));
}
