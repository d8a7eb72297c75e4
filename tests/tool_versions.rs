use asdfw::error::AsdfwError;
use asdfw::fs_path::FsPath;
use asdfw::tool_versions::{env_var_name_for_tool, parse_line, search_tool_in_file, ToolVersions};

const FIXTURE_GLOBAL: &str = "tool1 v1.2\r\ntool2 v2.1.3\r\ntool3 v12\r\n";
const FIXTURE_LOCAL: &str = "tool1 v1.3\r\ntool3 v10\r\n";
const FIXTURE_LOCAL_SUBDIR: &str = "tool1 v1.4\r\n";

fn tool_versions(tool: &str) -> ToolVersions {
    ToolVersions::new(FsPath::new("/home/user/.tool-versions"), FsPath::new("/work/project"), tool)
}

/// The record files seen from the project directory: its own, then none in
/// its two ancestors.
fn records_from_project() -> Vec<Option<String>> {
    vec![Some(FIXTURE_LOCAL.to_string()), None, None]
}

/// The record files seen from `subdir` of the project directory.
fn records_from_subdir() -> Vec<Option<String>> {
    vec![Some(FIXTURE_LOCAL_SUBDIR.to_string()), Some(FIXTURE_LOCAL.to_string()), None, None]
}

fn is_invalid_line(r: Result<Option<String>, AsdfwError>) -> bool {
    matches!(r, Err(AsdfwError::InvalidVersionsLine { .. }))
}

#[test]
fn parse_line_returns_valid_values_on_valid_line() {
    let line = "my-tool v1.2.3";
    let (tool, ver) = parse_line(line).unwrap();
    assert_eq!(tool, "my-tool");
    assert_eq!(ver, "v1.2.3");
}

#[test]
fn parse_invalid_line_missing_version() {
    assert!(parse_line("my-tool ").is_err(), "missing version should return error");
}

#[test]
fn parse_invalid_line_more_than_one_space() {
    assert!(parse_line("my-tool v1 1.2").is_err(), "more then one space should return error");
}

#[test]
fn parse_invalid_line_two_spaces_separator() {
    assert!(parse_line("my-tool  v11.2").is_err(), "two spaces separator should return error");
}

#[test]
fn parse_invalid_line_missing_tool_and_empty_line() {
    assert!(parse_line(" v1.2").is_err());
    assert!(parse_line("").is_err());
    assert!(parse_line("tool1").is_err());
}

#[test]
fn parse_invalid_line_reports_the_line() {
    match parse_line("tool1 v1 2") {
        Err(AsdfwError::InvalidVersionsLine { line }) => assert_eq!(line, "tool1 v1 2"),
        other => panic!("unexpected result: {:?}", other),
    }
}

#[test]
fn find_version_in_file_existing_tool() {
    let res = search_tool_in_file("tool3", "tool1 v1.2\r\ntool2 v2.1.3\r\ntool3 5.6\r\n").unwrap();
    assert_eq!(res, Some("5.6".to_string()));
}

#[test]
fn find_version_in_file_missing_tool() {
    let res = search_tool_in_file("tool4", "tool1 v1.2\r\ntool2 v2.1.3\r\ntool3 5.6\r\n").unwrap();
    assert_eq!(res, None);
}

#[test]
fn find_version_in_file_corrupt_file_if_reaches_corrupt_line() {
    let res = search_tool_in_file("tool3", "tool1 v1.2\r\ntool2 v2.1.3\r\ntool3  5.6\r\n");
    assert!(res.is_err(), "Corrupt file should produce error");
}

#[test]
fn malformed_line_fails_the_whole_file() {
    assert!(is_invalid_line(search_tool_in_file("tool1", "tool1  v1.2\r\n")));
    assert!(is_invalid_line(search_tool_in_file("tool1", "tool1 v1.2\r\ntool2 v1 2\r\n")));
    assert!(is_invalid_line(search_tool_in_file("tool2", "tool1 v1 2\r\ntool2 v2\r\n")));
}

#[test]
fn search_accepts_lf_endings_and_a_missing_final_newline() {
    assert_eq!(search_tool_in_file("b", "a 1\nb 2").unwrap(), Some("2".to_string()));
    assert_eq!(search_tool_in_file("a", "").unwrap(), None);
}

#[test]
fn search_keeps_a_lone_carriage_return_in_the_version() {
    assert_eq!(search_tool_in_file("a", "a 1\r").unwrap(), Some("1\r".to_string()));
}

#[test]
fn search_takes_the_first_entry_of_a_tool() {
    assert_eq!(search_tool_in_file("a", "a 1\r\na 2\r\n").unwrap(), Some("1".to_string()));
}

#[test]
fn env_var_name_is_upper_cased() {
    assert_eq!(env_var_name_for_tool("mytool"), "ASDFW_MYTOOL_VERSION");
    assert_eq!(env_var_name_for_tool("my-Tool2"), "ASDFW_MY-TOOL2_VERSION");
    assert_eq!(tool_versions("justfortest").env_var_name(), "ASDFW_JUSTFORTEST_VERSION");
}

#[test]
fn get_version_when_environment_variable_is_set() {
    let tvs = tool_versions("justfortest");
    let expected = "1.1.1".to_string();
    let result = tvs.get_version(Some(&expected), &records_from_project(), Some(FIXTURE_GLOBAL)).unwrap();
    assert_eq!(Some(expected), result);
}

#[test]
fn get_version_from_local_file() {
    let tvs = tool_versions("tool1");
    let result = tvs.get_version(None, &records_from_project(), Some(FIXTURE_GLOBAL)).unwrap();
    assert_eq!(result, Some("v1.3".to_string()));
}

#[test]
fn get_version_from_nested_local_file() {
    let tvs = tool_versions("tool1");
    let result = tvs.get_version(None, &records_from_subdir(), Some(FIXTURE_GLOBAL)).unwrap();
    assert_eq!(result, Some("v1.4".to_string()));
}

#[test]
fn get_version_from_local_file_in_parent_dir() {
    let tvs = tool_versions("tool3");
    let result = tvs.get_version(None, &records_from_subdir(), Some(FIXTURE_GLOBAL)).unwrap();
    assert_eq!(result, Some("v10".to_string()));
}

#[test]
fn get_version_falls_back_to_the_global_file() {
    let tvs = tool_versions("tool2");
    let result = tvs.get_version(None, &records_from_subdir(), Some(FIXTURE_GLOBAL)).unwrap();
    assert_eq!(result, Some("v2.1.3".to_string()));
}

#[test]
fn get_version_without_any_source_is_not_configured() {
    let tvs = tool_versions("tool9");
    assert_eq!(tvs.get_version(None, &records_from_subdir(), Some(FIXTURE_GLOBAL)).unwrap(), None);
    assert_eq!(tvs.get_version(None, &vec![], None).unwrap(), None);
}

#[test]
fn version_cascade_precedence() {
    let tvs = tool_versions("mytool");
    let global = "mytool v1.2\r\n";
    let locals = vec![Some("mytool v1.3\r\n".to_string())];
    assert_eq!(tvs.get_version(Some("v9.9"), &locals, Some(global)).unwrap(), Some("v9.9".to_string()));
    assert_eq!(tvs.get_version(None, &locals, Some(global)).unwrap(), Some("v1.3".to_string()));
    assert_eq!(tvs.get_version(None, &vec![None], Some(global)).unwrap(), Some("v1.2".to_string()));
}

#[test]
fn directory_walk_takes_the_nearest_record() {
    let tvs = tool_versions("tool3");
    let locals = vec![Some("tool1 v1\r\n".to_string()), Some("tool3 v10\r\n".to_string()), Some("tool3 v99\r\n".to_string())];
    assert_eq!(tvs.get_version_from_current_dir(&locals).unwrap(), Some("v10".to_string()));
    assert_eq!(tvs.get_version(None, &locals, None).unwrap(), Some("v10".to_string()));
}

#[test]
fn directory_walk_stops_before_a_corrupt_farther_file() {
    let tvs = tool_versions("tool3");
    let locals = vec![Some("tool3 v10\r\n".to_string()), Some("tool3  broken\r\n".to_string())];
    assert_eq!(tvs.get_version(None, &locals, None).unwrap(), Some("v10".to_string()));
}

#[test]
fn corrupt_local_file_fails_the_lookup() {
    let tvs = tool_versions("tool3");
    let locals = vec![Some("tool1 v1 2\r\n".to_string()), Some("tool3 v10\r\n".to_string())];
    assert!(is_invalid_line(tvs.get_version(None, &locals, Some(FIXTURE_GLOBAL))));
}

#[test]
fn corrupt_global_file_fails_the_lookup() {
    let tvs = tool_versions("tool1");
    assert!(is_invalid_line(tvs.get_version_from_global(Some("tool1 v1.2\r\ntool2  v2\r\n"))));
    assert_eq!(tvs.get_version_from_global(None).unwrap(), None);
}

#[test]
fn local_file_is_in_the_current_directory() {
    let tvs = tool_versions("tool1");
    assert_eq!(tvs.local_file(), FsPath::new("/work/project").join(".tool-versions"));
}

#[test]
fn save_global_creates_new_global_file_if_does_not_exist() {
    let (tool, version) = ("tool1", "v1.2");
    let tvs = tool_versions(tool);
    let saved = tvs.save_global(version, None).unwrap();
    let res = tvs.get_version(None, &vec![None], Some(&saved)).unwrap();
    assert_eq!(res, Some(version.to_string()), "saved and loaded version should match");
}

#[test]
fn save_global_saves_global_version_with_new_tool() {
    let tvs = tool_versions("tool4");
    let saved = tvs.save_global("1.0", Some(FIXTURE_GLOBAL)).unwrap();
    let res = tvs.get_version(None, &vec![None], Some(&saved)).unwrap();
    assert_eq!(res, Some("1.0".to_string()), "test with new tool: loaded does not match saved");
}

#[test]
fn save_global_saves_global_version_with_updated_tool() {
    let tvs = tool_versions("tool1");
    let saved = tvs.save_global("1.4", Some(FIXTURE_GLOBAL)).unwrap();
    let res = tvs.get_version(None, &vec![None], Some(&saved)).unwrap();
    assert_eq!(res, Some("1.4".to_string()), "test with updated tool: loaded does not match saved");
}

#[test]
fn save_global_keeps_other_tools() {
    let tvs = tool_versions("tool1");
    let saved = tvs.save_global("v1.4", Some(FIXTURE_GLOBAL)).unwrap();
    assert_eq!(saved, "tool1 v1.4\r\ntool2 v2.1.3\r\ntool3 v12\r\n");
    assert_eq!(search_tool_in_file("tool2", &saved).unwrap(), Some("v2.1.3".to_string()));
    assert_eq!(search_tool_in_file("tool1", &saved).unwrap(), Some("v1.4".to_string()));
}

#[test]
fn save_appends_a_new_tool_at_the_end() {
    let tvs = tool_versions("tool4");
    assert_eq!(tvs.save_global("1.0", Some("tool1 v1\r\n")).unwrap(), "tool1 v1\r\ntool4 1.0\r\n");
    assert_eq!(tvs.save_global("1.0", None).unwrap(), "tool4 1.0\r\n");
}

#[test]
fn save_local_creates_new_local_file_if_not_exists() {
    let (tool, version) = ("tool1", "v1.3");
    let tvs = tool_versions(tool);
    let saved = tvs.save_local(version, None).unwrap();
    let res = tvs.get_version(None, &vec![Some(saved), None], Some(FIXTURE_GLOBAL)).unwrap();
    assert_eq!(res, Some(version.to_string()), "saved and loaded version should match");
}

#[test]
fn save_local_sets_local_version_for_new_tool() {
    let tvs = tool_versions("tool2");
    let saved = tvs.save_local("v2.2.0", Some(FIXTURE_LOCAL)).unwrap();
    let res = tvs.get_version(None, &vec![Some(saved)], Some(FIXTURE_GLOBAL)).unwrap();
    assert_eq!(res, Some("v2.2.0".to_string()), "test set local tool: loaded does not match saved");
}

#[test]
fn save_local_updates_existing_local_tool() {
    let tvs = tool_versions("tool1");
    let saved = tvs.save_local("v1.4", Some(FIXTURE_LOCAL)).unwrap();
    let res = tvs.get_version(None, &vec![Some(saved)], Some(FIXTURE_GLOBAL)).unwrap();
    assert_eq!(res, Some("v1.4".to_string()), "test update existing local tool: loaded does not match saved");
}

#[test]
fn save_refuses_a_version_with_a_space() {
    let tvs = tool_versions("tool1");
    match tvs.save_global("v1 2", Some(FIXTURE_GLOBAL)) {
        Err(AsdfwError::InvalidVersionsLine { line }) => assert_eq!(line, "tool1 v1 2"),
        other => panic!("unexpected result: {:?}", other),
    }
    assert!(tvs.save_global("", None).is_err());
    assert!(tvs.save_global("v1\nv2", None).is_err());
}

#[test]
fn save_refuses_a_corrupt_existing_file() {
    let tvs = tool_versions("tool1");
    match tvs.save_local("v1", Some("tool2  v2\r\n")) {
        Err(AsdfwError::InvalidVersionsLine { line }) => assert_eq!(line, "tool2  v2"),
        other => panic!("unexpected result: {:?}", other),
    }
}

#[test]
fn env_var_name_from_an_upper_case_name() {
    assert_eq!(asdfw::tool_versions::env_var_name_for_upper("MYTOOL"), "ASDFW_MYTOOL_VERSION");
}
