use asdfw::error::AsdfwError;
use asdfw::fs_path::FsPath;

#[test]
fn error_messages_name_what_failed() {
    let cases = vec![
        (AsdfwError::InstallRootMissing { path: FsPath::new("/x") }, "Supplied tools install dir is not an existing directory"),
        (
            AsdfwError::ShimConflict { shim: "a.exe".to_string(), tool: "t1".to_string(), other_tool: "t2".to_string() },
            "'a.exe' appears in two tools: 't1' and 't2'",
        ),
        (AsdfwError::ShimNotFound { name: "x".to_string() }, "Could not find shim named: 'x'"),
        (AsdfwError::ToolNotConfigured { command: "x.exe".to_string() }, "No tool configured for the command: 'x.exe'"),
        (AsdfwError::VersionNotConfigured { tool: "t".to_string() }, "No version configured for 't'"),
        (
            AsdfwError::VersionNotInstalled { tool: "t".to_string(), version: "1.0".to_string() },
            "Version '1.0' of 't' is configured but not installed",
        ),
        (
            AsdfwError::CommandMissingInVersion {
                command: "c.exe".to_string(),
                tool: "t".to_string(),
                version: "1.0".to_string(),
            },
            "'c.exe' does not exist in version '1.0' of 't'",
        ),
        (AsdfwError::InvalidVersionsLine { line: "a  b".to_string() }, "Invalid tools versions line: a  b"),
        (
            AsdfwError::PluginConfigParse { tool: "t".to_string(), reason: "bad".to_string() },
            "Parsing plugin config for 't': bad",
        ),
        (AsdfwError::InvalidShimsDb, "Error deserializing ShimsDB"),
        (AsdfwError::ShimsDbEncoding, "Error serializing ShimsDB"),
    ];
    for (error, expected) in cases {
        assert_eq!(error.message(), expected);
    }
}
