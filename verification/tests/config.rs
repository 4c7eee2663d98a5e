use agentgate::config::{
    default_db_path, dirs_path, join_path, server_name_for_command, AgentGateConfig, LogFormat,
};

#[test]
fn dirs_path_under_home() {
    assert_eq!(dirs_path(Some("/home/ada")), "/home/ada/.agentgate");
}

#[test]
fn dirs_path_without_home_is_under_tmp() {
    assert_eq!(dirs_path(None), "/tmp/.agentgate");
}

#[test]
fn default_db_path_under_home() {
    assert_eq!(default_db_path(Some("/home/ada")), "/home/ada/.agentgate/logs.db");
    assert_eq!(default_db_path(None), "/tmp/.agentgate/logs.db");
}

#[test]
fn join_keeps_a_single_separator() {
    assert_eq!(join_path("/home/ada/", ".agentgate"), "/home/ada/.agentgate");
    assert_eq!(join_path("", ".agentgate"), ".agentgate");
    assert_eq!(dirs_path(Some("")), ".agentgate");
}

#[test]
fn default_config() {
    let c = AgentGateConfig::default_for_home(Some("/root"));
    assert_eq!(c.log_level, "info");
    assert_eq!(c.log_format, LogFormat::Pretty);
    assert_eq!(c.db_path, "/root/.agentgate/logs.db");
    assert_eq!(c.server_name, "unknown");
    assert!(c.policy_path.is_none());
}

#[test]
fn server_name_is_the_command_file_name() {
    assert_eq!(server_name_for_command("npx"), "npx");
    assert_eq!(server_name_for_command("/usr/local/bin/mcp-server"), "mcp-server");
    assert_eq!(server_name_for_command("./bin/server/"), "server");
    // No file name: the command itself.
    assert_eq!(server_name_for_command("bin/.."), "bin/..");
    assert_eq!(server_name_for_command("/"), "/");
}

#[test]
fn server_name_agrees_with_path_file_name() {
    for p in [
        "", "/", "//", ".", "..", "./", "./.", "a", "a/", "a//", "a/.", "a/./", "a/..", "../a", "./a",
        "a//b", "/usr/bin/npx", "a/./b/.", "b/../", ".hidden", "a/.../", "x/.y",
    ] {
        let expected = std::path::Path::new(p)
            .file_name()
            .map(|n| n.to_str().unwrap().to_string())
            .unwrap_or_else(|| p.to_string());
        assert_eq!(server_name_for_command(p), expected, "path {p:?}");
    }
}
