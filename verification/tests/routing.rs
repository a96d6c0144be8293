use rbx_studio_mcp::role::TargetRole;
use rbx_studio_mcp::routing::bullet_list;
use rbx_studio_mcp::state::AppState;

const SEC: u64 = 1_000_000_000;

#[test]
fn one_connected_window_is_used() {
    let mut state: AppState<u8> = AppState::new();
    assert_eq!(
        state.resolve_auto_instance(0),
        Err("No Roblox Studio instance is connected. Make sure Studio is open with the MCP plugin enabled.".to_string())
    );
    state.note_poll("0|Place1", TargetRole::Edit, 0);
    assert_eq!(state.resolve_auto_instance(SEC), Ok("0|Place1".to_string()));
    assert!(state.resolve_auto_instance(3 * SEC).is_err());
}

#[test]
fn several_connected_windows_are_listed() {
    let mut state: AppState<u8> = AppState::new();
    state.note_poll("7|Lobby", TargetRole::Edit, 0);
    state.note_poll("0|Place1", TargetRole::Client, 0);
    assert_eq!(
        state.resolve_auto_instance(0),
        Err("Multiple Roblox Studio instances are connected:\n- Place1 (placeId 0)\n- Lobby (placeId 7)\nCall select_studio_instance with the place name or placeId to choose which one to operate on.".to_string())
    );
    assert_eq!(bullet_list(&vec![]), "");
}

#[test]
fn poll_status_tells_what_is_known() {
    let mut state: AppState<u8> = AppState::new();
    state.note_poll("0|Place1", TargetRole::Edit, 0);
    assert_eq!(
        state.poll_status(None, TargetRole::Edit, 0),
        "the command had no Studio instance attached"
    );
    assert_eq!(
        state.poll_status(Some("0|Place1"), TargetRole::Edit, 12 * SEC + 1),
        "last poll from the Edit DataModel of Place1 (placeId 0) was 12s ago"
    );
    assert_eq!(
        state.poll_status(Some("0|Place1"), TargetRole::Client, 12 * SEC),
        "the Client DataModel of Place1 (placeId 0) has not connected yet"
    );
    assert_eq!(
        state.poll_status(Some("x"), TargetRole::Server, 12 * SEC),
        "the Server DataModel of x has not connected yet"
    );
}

#[test]
fn windows_are_summarized() {
    let mut state: AppState<u8> = AppState::new();
    state.note_poll("lonely", TargetRole::Edit, 3 * SEC);
    state.note_poll("5|B|C", TargetRole::Server, 2 * SEC);
    state.note_poll("5|B|C", TargetRole::Client, 2 * SEC);
    state.note_poll("5|B|C", TargetRole::Edit, 2 * SEC);
    let rows = state.instance_summaries(4 * SEC);
    assert_eq!(rows.len(), 2);
    assert_eq!(rows[0].id, "5|B|C");
    assert_eq!(rows[0].place_id, "5");
    assert_eq!(rows[0].name, "B|C");
    assert_eq!(rows[0].connected_roles, vec!["client", "edit", "server"]);
    assert_eq!(rows[0].seconds_since_poll, 2);
    assert_eq!(rows[1].id, "lonely");
    assert_eq!(rows[1].place_id, "");
    assert_eq!(rows[1].name, "lonely");
    assert_eq!(rows[1].connected_roles, vec!["edit"]);
    assert_eq!(rows[1].seconds_since_poll, 1);
}

#[test]
fn silent_windows_are_not_summarized() {
    let mut state: AppState<u8> = AppState::new();
    assert!(state.instance_summaries(0).is_empty());
    state.note_poll("1|A", TargetRole::Edit, 0);
    state.note_poll("2|B", TargetRole::Edit, 0);
    state.note_poll("2|B", TargetRole::Client, 2 * SEC);
    assert_eq!(state.instance_summaries(3 * SEC - 1).len(), 2);
    let rows = state.instance_summaries(4 * SEC);
    assert_eq!(rows.len(), 1);
    assert_eq!(rows[0].id, "2|B");
    assert_eq!(rows[0].connected_roles, vec!["client"]);
    assert!(state.instance_summaries(5 * SEC).is_empty());
    assert!(state.known_instance("1|A").is_some());
}
