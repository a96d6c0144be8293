use rbx_studio_mcp::instances::{instance_display, StudioInstance};
use rbx_studio_mcp::role::TargetRole;
use rbx_studio_mcp::state::AppState;

const SEC: u64 = 1_000_000_000;

#[test]
fn instance_ids_are_written_for_people() {
    assert_eq!(instance_display("0|Place1"), "Place1 (placeId 0)");
    assert_eq!(instance_display("17|a|b"), "a|b (placeId 17)");
    assert_eq!(instance_display("default"), "default");
    assert_eq!(instance_display("|"), " (placeId )");
}

#[test]
fn polls_connect_for_three_seconds() {
    let mut state: AppState<u8> = AppState::new();
    state.note_poll("a", TargetRole::Server, 10 * SEC);
    assert!(state.role_fresh("a", TargetRole::Server, 10 * SEC));
    assert!(state.role_fresh("a", TargetRole::Server, 13 * SEC - 1));
    assert!(!state.role_fresh("a", TargetRole::Server, 13 * SEC));
    assert!(!state.role_fresh("a", TargetRole::Client, 10 * SEC));
    assert!(!state.role_fresh("b", TargetRole::Server, 10 * SEC));
    assert!(!state.role_fresh("a", TargetRole::Legacy, 10 * SEC));
    assert!(state.any_role_fresh("a", 12 * SEC));
    assert!(!state.any_role_fresh("a", 13 * SEC));
}

#[test]
fn silent_windows_are_forgotten_after_ten_minutes() {
    let mut state: AppState<u8> = AppState::new();
    state.note_poll("a", TargetRole::Edit, 0);
    state.note_poll("b", TargetRole::Edit, 600 * SEC - 1);
    assert!(state.known_instance("a").is_some());
    assert!(state.known_instance("b").is_some());
    state.note_poll("b", TargetRole::Edit, 600 * SEC);
    assert!(state.known_instance("b").is_some());
    assert!(state.known_instance("a").is_none());
}

#[test]
fn legacy_polls_register_nothing() {
    let mut state: AppState<u8> = AppState::new();
    assert!(state.knows_no_instance());
    state.note_poll("a", TargetRole::Legacy, 0);
    assert!(state.knows_no_instance());
    state.note_poll("a", TargetRole::Edit, 0);
    assert!(!state.knows_no_instance());
}

#[test]
fn connected_windows_are_listed_in_order() {
    let mut state: AppState<u8> = AppState::new();
    state.note_poll("2|b", TargetRole::Edit, 0);
    state.note_poll("10|a", TargetRole::Client, 5 * SEC);
    state.note_poll("1|c", TargetRole::Server, 5 * SEC);
    assert_eq!(state.fresh_instance_ids(6 * SEC), vec!["10|a", "1|c"]);
    assert!(state.known_instance("2|b").is_some());
}

#[test]
fn the_most_recent_poll_counts() {
    let instance = StudioInstance { edit: Some(0), server: None, client: Some(4 * SEC) };
    assert_eq!(instance.seconds_since_poll(6 * SEC + SEC / 2), Some(2));
    assert_eq!(instance.poll_time(TargetRole::Edit), Some(0));
    assert_eq!(instance.poll_time(TargetRole::Legacy), None);
    assert!(instance.any_role_fresh(6 * SEC));
    assert!(!instance.role_fresh(TargetRole::Edit, 6 * SEC));
    let unseen = StudioInstance { edit: None, server: None, client: None };
    assert_eq!(unseen.seconds_since_poll(6 * SEC), None);
}
