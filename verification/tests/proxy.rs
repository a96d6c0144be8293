use rbx_studio_mcp::commands::{RunCommandResponse, ToolArguments};
use rbx_studio_mcp::proxy::{
    serve_step, ForwardEnd, ForwardOutcome, ForwardStep, ProxyStep, ServeAction, ServeEvent, STUDIO_PLUGIN_PORT,
};
use rbx_studio_mcp::role::TargetRole;
use rbx_studio_mcp::runs::WaitOutcome;
use rbx_studio_mcp::state::AppState;
use rbx_studio_mcp::tools::{InsertModel, ToolArgumentValues};
use std::sync::Arc;

const SEC: u64 = 1_000_000_000;

fn command(id: Option<u128>, target: TargetRole, instance: Option<&str>) -> ToolArguments {
    ToolArguments {
        args: Arc::new(ToolArgumentValues::InsertModel(InsertModel { query: "tree".to_string() })),
        id,
        target,
        instance: instance.map(|i| i.to_string()),
    }
}

fn reply(step: ProxyStep) -> RunCommandResponse {
    match step {
        ProxyStep::Reply { response } => response,
        _ => panic!("no reply"),
    }
}

#[test]
fn forwarded_commands_need_an_id() {
    let state: AppState<u8> = AppState::new();
    match state.admit_proxied(command(None, TargetRole::Edit, Some("a")), 0) {
        ProxyStep::Reject { message } => assert_eq!(message, "Got proxy command with no id"),
        _ => panic!("accepted"),
    }
}

#[test]
fn forwarded_commands_get_their_window() {
    let mut state: AppState<u8> = AppState::new();
    let response = reply(state.admit_proxied(command(Some(4), TargetRole::Edit, None), 0));
    assert!(!response.success);
    assert_eq!(response.id, 4);
    assert!(response.response.starts_with("No Roblox Studio instance is connected."));
    state.note_poll("0|Place1", TargetRole::Edit, 0);
    let ready = match state.admit_proxied(command(Some(4), TargetRole::Edit, None), 0) {
        ProxyStep::Ready { ready } => ready,
        _ => panic!("not ready"),
    };
    assert_eq!(state.enqueue_proxied(ready, 7), (4, 300 * SEC as u128));
    let task = state.pop_front().unwrap();
    assert_eq!(task.command.instance, Some("0|Place1".to_string()));
    assert_eq!(task.command.id, Some(4));
    assert_eq!(state.close_output(4), Some(7));
}

#[test]
fn a_named_window_is_taken_as_it_is() {
    let mut state: AppState<u8> = AppState::new();
    let ready = match state.admit_proxied(command(Some(4), TargetRole::Edit, Some("gone")), 0) {
        ProxyStep::Ready { ready } => ready,
        _ => panic!("not ready"),
    };
    state.enqueue_proxied(ready, 7);
    assert_eq!(state.pop_front().unwrap().command.instance, Some("gone".to_string()));
}

#[test]
fn forwarded_commands_wait_for_their_role() {
    let mut state: AppState<u8> = AppState::new();
    state.note_poll("a", TargetRole::Edit, 0);
    let waiting = match state.admit_proxied(command(Some(4), TargetRole::Server, Some("a")), 0) {
        ProxyStep::WaitForRole { waiting } => waiting,
        _ => panic!("not waiting"),
    };
    let waiting = match state.await_proxied_role(waiting, 10 * SEC, SEC) {
        ProxyStep::Sleep { waiting, nanos } => {
            assert_eq!(nanos, 250_000_000);
            waiting
        }
        _ => panic!("not waiting"),
    };
    state.note_poll("a", TargetRole::Server, 2 * SEC);
    let ready = match state.await_proxied_role(waiting, 10 * SEC, 3 * SEC) {
        ProxyStep::Ready { ready } => ready,
        _ => panic!("not ready"),
    };
    state.enqueue_proxied(ready, 7);
    assert_eq!(state.pop_front().unwrap().command.target, TargetRole::Server);
}

#[test]
fn a_role_that_never_polls_is_reported() {
    let mut state: AppState<u8> = AppState::new();
    state.note_poll("a", TargetRole::Edit, 0);
    for (role, text) in [
        (
            TargetRole::Server,
            "No play-mode server is connected. Start play mode first with start_stop_play (mode start_play or run_server). (Studio instance: a)",
        ),
        (
            TargetRole::Legacy,
            "Internal error: command addressed to the legacy role. (Studio instance: a)",
        ),
    ] {
        let waiting = match state.admit_proxied(command(Some(4), role, Some("a")), 0) {
            ProxyStep::WaitForRole { waiting } => waiting,
            _ => panic!("not waiting"),
        };
        let response = reply(state.await_proxied_role(waiting, 10 * SEC, 10 * SEC));
        assert!(!response.success);
        assert_eq!(response.id, 4);
        assert_eq!(response.response, text);
    }
}

#[test]
fn forwarded_results_are_answered_and_forgotten() {
    let mut state: AppState<u8> = AppState::new();
    for (outcome, success, text) in [
        (WaitOutcome::Received { result: Ok("x".to_string()) }, true, "x"),
        (WaitOutcome::Received { result: Err("y".to_string()) }, false, "y"),
        (WaitOutcome::TimedOut, false, "Timed out after 90s waiting for Roblox Studio"),
    ] {
        state.enqueue(command(Some(4), TargetRole::Edit, Some("a")), 4, 7);
        let response = state.finish_proxied(4, 90 * SEC as u128, outcome).unwrap();
        assert_eq!(response.success, success);
        assert_eq!(response.response, text);
        assert_eq!(response.id, 4);
        assert_eq!(state.close_output(4), None);
        assert!(state.pop_front().is_none());
    }
    state.enqueue(command(Some(4), TargetRole::Edit, Some("a")), 4, 7);
    assert_eq!(
        state.finish_proxied(4, 90 * SEC as u128, WaitOutcome::Closed).map(|_| ()),
        Err("Couldn't receive response".to_string())
    );
    assert_eq!(state.close_output(4), Some(7));
}

#[test]
fn forwarding_takes_commands_in_order() {
    let mut state: AppState<u8> = AppState::new();
    assert!(matches!(state.next_forward(false), ForwardStep::Idle));
    state.enqueue(command(Some(1), TargetRole::Edit, None), 1, 7);
    state.enqueue(command(Some(2), TargetRole::Edit, None), 2, 8);
    assert!(matches!(state.next_forward(true), ForwardStep::Shutdown));
    match state.next_forward(false) {
        ForwardStep::Forward { entry, request_timeout } => {
            assert_eq!(entry.command.id, Some(1));
            assert_eq!(request_timeout, 330 * SEC as u128);
        }
        _ => panic!("not forwarded"),
    }
    match state.next_forward(false) {
        ForwardStep::Forward { entry, .. } => assert_eq!(entry.command.id, Some(2)),
        _ => panic!("not forwarded"),
    }
}

#[test]
fn forwarding_hands_the_result_to_the_caller() {
    let response = |success: bool| RunCommandResponse { success, response: "r".to_string(), id: 1 };
    for (outcome, expected) in [
        (ForwardOutcome::Reply { response: response(true) }, Ok("r".to_string())),
        (ForwardOutcome::Reply { response: response(false) }, Err("r".to_string())),
        (ForwardOutcome::BadReply { error: "e".to_string() }, Err("e".to_string())),
        (
            ForwardOutcome::Failed { error: "e".to_string() },
            Err("Failed to forward command to the primary MCP instance: e".to_string()),
        ),
    ] {
        let mut state: AppState<u8> = AppState::new();
        state.enqueue(command(Some(1), TargetRole::Edit, None), 1, 7);
        let entry = match state.next_forward(false) {
            ForwardStep::Forward { entry, .. } => entry,
            _ => panic!("not forwarded"),
        };
        match state.forwarded(entry, outcome) {
            ForwardEnd::Deliver { delivery: Some(delivery) } => {
                assert_eq!(delivery.channel, 7);
                assert_eq!(delivery.result, expected);
            }
            _ => panic!("not delivered"),
        }
    }
}

#[test]
fn forwarding_ignores_callers_that_are_gone() {
    let mut state: AppState<u8> = AppState::new();
    state.enqueue(command(Some(1), TargetRole::Edit, None), 1, 7);
    let entry = state.pop_front().unwrap();
    state.close_output(1);
    let outcome = ForwardOutcome::BadReply { error: "e".to_string() };
    assert!(matches!(state.forwarded(entry, outcome), ForwardEnd::Deliver { delivery: None }));
}

#[test]
fn a_lost_owner_leaves_the_queue_as_it_was() {
    let mut state: AppState<u8> = AppState::new();
    state.enqueue(command(Some(1), TargetRole::Edit, None), 1, 7);
    state.enqueue(command(Some(2), TargetRole::Edit, None), 2, 8);
    let entry = match state.next_forward(false) {
        ForwardStep::Forward { entry, .. } => entry,
        _ => panic!("not forwarded"),
    };
    assert!(matches!(state.forwarded(entry, ForwardOutcome::Unreachable), ForwardEnd::PrimaryGone));
    assert_eq!(state.pop_front().unwrap().command.id, Some(1));
    assert_eq!(state.pop_front().unwrap().command.id, Some(2));
    assert_eq!(state.close_output(1), Some(7));
}

#[test]
fn serving_and_forwarding_take_turns() {
    assert_eq!(STUDIO_PLUGIN_PORT, 44755);
    assert!(matches!(serve_step(ServeEvent::Start { closed: true }), ServeAction::Stop));
    assert!(matches!(serve_step(ServeEvent::Start { closed: false }), ServeAction::Bind));
    assert!(matches!(serve_step(ServeEvent::Bound { free: true }), ServeAction::Serve));
    assert!(matches!(serve_step(ServeEvent::Bound { free: false }), ServeAction::Forward));
    assert!(matches!(serve_step(ServeEvent::Served { failed: false }), ServeAction::Stop));
    assert!(matches!(
        serve_step(ServeEvent::Served { failed: true }),
        ServeAction::Restart { nanos: 250_000_000 }
    ));
    assert!(matches!(serve_step(ServeEvent::ForwardingShutDown), ServeAction::Stop));
    assert!(matches!(
        serve_step(ServeEvent::PrimaryGone),
        ServeAction::Restart { nanos: 250_000_000 }
    ));
}
