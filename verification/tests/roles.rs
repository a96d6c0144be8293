use rbx_studio_mcp::role::{legacy_role, parse_context, validate_mode, TargetRole};

#[test]
fn contexts() {
    assert_eq!(parse_context(None), Ok(TargetRole::Edit));
    assert_eq!(parse_context(Some("edit")), Ok(TargetRole::Edit));
    assert_eq!(parse_context(Some("server")), Ok(TargetRole::Server));
    assert_eq!(parse_context(Some("client")), Ok(TargetRole::Client));
    assert_eq!(
        parse_context(Some("Client")),
        Err("Invalid context 'Client': must be one of edit, server, or client".to_string())
    );
    assert_eq!(
        parse_context(Some("legacy")),
        Err("Invalid context 'legacy': must be one of edit, server, or client".to_string())
    );
}

#[test]
fn modes() {
    assert_eq!(validate_mode(None), Ok(()));
    assert_eq!(validate_mode(Some("output")), Ok(()));
    assert_eq!(validate_mode(Some("execute")), Ok(()));
    assert_eq!(
        validate_mode(Some("exec")),
        Err("Invalid mode 'exec': must be output or execute".to_string())
    );
}

#[test]
fn missing_roles_are_described() {
    assert_eq!(
        TargetRole::Edit.describe_missing(),
        "The Studio plugin is not connected. Make sure Studio is open with the MCP plugin enabled."
    );
    assert_eq!(
        TargetRole::Server.describe_missing(),
        "No play-mode server is connected. Start play mode first with start_stop_play (mode start_play or run_server)."
    );
    assert_eq!(
        TargetRole::Client.describe_missing(),
        "No play-mode client is connected. Start play mode first with start_stop_play (mode start_play). Note that run_server mode has no client."
    );
    assert_eq!(
        TargetRole::Legacy.describe_missing(),
        "Internal error: command addressed to the legacy role."
    );
}

#[test]
fn defaults_and_titles() {
    assert_eq!(TargetRole::default(), TargetRole::Edit);
    assert_eq!(legacy_role(), TargetRole::Legacy);
    for role in [TargetRole::Edit, TargetRole::Server, TargetRole::Client, TargetRole::Legacy] {
        assert_eq!(role.title(), format!("{role:?}"));
    }
}
