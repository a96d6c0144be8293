use rbx_studio_mcp::polling::{poll_deadline, PollStep};
use rbx_studio_mcp::role::TargetRole;
use rbx_studio_mcp::runs::{
    deadline, role_deadline, AfterRestore, AfterRun, BeforeRun, Execution, PendingRun, RoleWait, WaitOutcome,
};
use rbx_studio_mcp::state::AppState;
use rbx_studio_mcp::tools::{GetStudioMode, InsertModel, ToolArgumentValues};
use std::sync::Arc;

const SEC: u64 = 1_000_000_000;

fn args() -> Arc<ToolArgumentValues> {
    Arc::new(ToolArgumentValues::InsertModel(InsertModel { query: "tree".to_string() }))
}

fn submit(state: &mut AppState<u8>, instance: Option<&str>) -> PendingRun {
    state.submit(&args(), TargetRole::Edit, &instance.map(|i| i.to_string()), 7)
}

fn execution(instance: Option<&str>) -> Execution {
    Execution {
        args: Arc::new(ToolArgumentValues::GetStudioMode(GetStudioMode {})),
        target: TargetRole::Client,
        instance: instance.map(|i| i.to_string()),
    }
}

#[test]
fn deadlines_do_not_overflow() {
    assert_eq!(deadline(5, 7), 12);
    assert_eq!(role_deadline(5), 10 * SEC + 5);
    assert_eq!(poll_deadline(5), 15 * SEC + 5);
    assert_eq!(deadline(u64::MAX - 1, 7), u64::MAX);
}

#[test]
fn only_play_roles_of_known_windows_are_waited_for() {
    let mut state: AppState<u8> = AppState::new();
    let window = Some("0|Place1".to_string());
    assert!(!state.must_wait_for_role(TargetRole::Client, &window));
    state.note_poll("0|Place1", TargetRole::Edit, 0);
    assert!(state.must_wait_for_role(TargetRole::Client, &window));
    assert!(state.must_wait_for_role(TargetRole::Server, &window));
    assert!(!state.must_wait_for_role(TargetRole::Edit, &window));
    assert!(!state.must_wait_for_role(TargetRole::Client, &None));
}

#[test]
fn roles_are_waited_for_until_the_deadline() {
    let mut state: AppState<u8> = AppState::new();
    state.note_poll("0|Place1", TargetRole::Edit, 0);
    let look = state.wait_for_role("0|Place1", TargetRole::Client, 10 * SEC, 9 * SEC);
    assert!(matches!(look, RoleWait::Sleep { nanos: 250_000_000 }));
    match state.wait_for_role("0|Place1", TargetRole::Client, 10 * SEC, 10 * SEC) {
        RoleWait::Missing { message } => assert_eq!(
            message,
            "No play-mode client is connected. Start play mode first with start_stop_play (mode start_play). Note that run_server mode has no client. (Studio instance: Place1 (placeId 0))"
        ),
        _ => panic!("the time is up"),
    }
    state.note_poll("0|Place1", TargetRole::Client, 10 * SEC);
    let look = state.wait_for_role("0|Place1", TargetRole::Client, 10 * SEC, 11 * SEC);
    assert!(matches!(look, RoleWait::Ready));
}

#[test]
fn submitted_commands_reach_their_poller() {
    let mut state: AppState<u8> = AppState::new();
    let run = submit(&mut state, Some("0|Place1"));
    assert_eq!(run.run_timeout, 300 * SEC as u128);
    let (step, _) = state.poll(TargetRole::Edit, "0|Place1", SEC, 0);
    match step {
        PollStep::Deliver { command } => {
            assert_eq!(command.id, Some(run.id));
            assert_eq!(command.target, TargetRole::Edit);
            assert_eq!(command.instance, Some("0|Place1".to_string()));
        }
        _ => panic!("not delivered"),
    }
}

#[test]
fn a_received_result_is_passed_on() {
    let mut state: AppState<u8> = AppState::new();
    let run = submit(&mut state, Some("0|Place1"));
    let id = run.id;
    let outcome = WaitOutcome::Received { result: Ok("done".to_string()) };
    assert_eq!(state.finish_run(run, outcome, 0), Ok("done".to_string()));
    assert_eq!(state.close_output(id), None);
    let run = submit(&mut state, Some("0|Place1"));
    let outcome = WaitOutcome::Received { result: Err("broken".to_string()) };
    assert_eq!(state.finish_run(run, outcome, 0), Err("broken".to_string()));
}

#[test]
fn a_closed_channel_is_an_error() {
    let mut state: AppState<u8> = AppState::new();
    let run = submit(&mut state, Some("0|Place1"));
    let id = run.id;
    assert_eq!(
        state.finish_run(run, WaitOutcome::Closed, 0),
        Err("Couldn't receive response".to_string())
    );
    assert_eq!(state.close_output(id), Some(7));
}

#[test]
fn a_command_that_takes_too_long_is_forgotten() {
    let mut state: AppState<u8> = AppState::new();
    state.note_poll("0|Place1", TargetRole::Edit, 0);
    let run = submit(&mut state, Some("0|Place1"));
    let id = run.id;
    assert_eq!(
        state.finish_run(run, WaitOutcome::TimedOut, 301 * SEC),
        Err("Timed out after 300s waiting for Roblox Studio (last poll from the Edit DataModel of Place1 (placeId 0) was 301s ago). Studio may be busy (publishing or loading) or the MCP plugin may be disconnected. Make sure Studio is open with the MCP plugin enabled, then try again.".to_string())
    );
    assert_eq!(state.close_output(id), None);
    assert!(state.pop_front().is_none());
    let run = submit(&mut state, None);
    assert!(state
        .finish_run(run, WaitOutcome::TimedOut, 0)
        .unwrap_err()
        .contains("(the command had no Studio instance attached)"));
}

#[test]
fn only_a_rendering_failure_is_retried() {
    for result in [Ok("Studio is not rendering".to_string()), Err("no such key".to_string())] {
        match execution(None).after_run(result.clone()) {
            AfterRun::Done { result: passed } => assert_eq!(passed, result),
            AfterRun::Restore { .. } => panic!("retried"),
        }
    }
}

#[test]
fn a_restored_window_leads_to_one_retry_of_the_same_call() {
    let call = execution(Some("11|Arena|x"));
    let args = Arc::clone(&call.args);
    let error = "Error: Studio is not rendering (minimized)".to_string();
    let failed = match call.after_run(Err(error)) {
        AfterRun::Restore { failed } => failed,
        AfterRun::Done { .. } => panic!("not retried"),
    };
    assert_eq!(failed.hint(), Some("Arena|x".to_string()));
    let retry = match failed.after_restore(Ok("Arena - Roblox Studio".to_string())) {
        AfterRestore::Run { retry } => retry,
        AfterRestore::Done { .. } => panic!("not retried"),
    };
    assert!(Arc::ptr_eq(&retry.call.args, &args));
    assert_eq!(retry.call.target, TargetRole::Client);
    assert_eq!(retry.call.instance, Some("11|Arena|x".to_string()));
    assert_eq!(
        retry.after_retry(Err("Studio is not rendering".to_string())),
        Err("Studio is not rendering (the Studio window 'Arena - Roblox Studio' was restored automatically and the command retried once)".to_string())
    );
}

#[test]
fn a_retry_that_works_is_a_success() {
    let failed = match execution(None).after_run(Err("Studio is not rendering".to_string())) {
        AfterRun::Restore { failed } => failed,
        AfterRun::Done { .. } => panic!("not retried"),
    };
    assert_eq!(failed.hint(), None);
    match failed.after_restore(Ok("t".to_string())) {
        AfterRestore::Run { retry } => assert_eq!(retry.after_retry(Ok("ok".to_string())), Ok("ok".to_string())),
        AfterRestore::Done { .. } => panic!("not retried"),
    }
}

#[test]
fn a_window_that_cannot_be_restored_ends_the_call() {
    let call = execution(Some("5|"));
    let failed = match call.after_run(Err("Studio is not rendering.".to_string())) {
        AfterRun::Restore { failed } => failed,
        AfterRun::Done { .. } => panic!("not retried"),
    };
    assert_eq!(failed.hint(), Some("".to_string()));
    match failed.after_restore(Err("no window".to_string())) {
        AfterRestore::Done { result } => assert_eq!(
            result,
            Err("Studio is not rendering. Automatic window restore did not work: no window".to_string())
        ),
        AfterRestore::Run { .. } => panic!("retried"),
    }
}

#[test]
fn a_command_is_queued_when_its_role_polls() {
    let mut state: AppState<u8> = AppState::new();
    let window = Some("a".to_string());
    assert!(matches!(state.before_run(TargetRole::Client, &window, None, 0), BeforeRun::Submit));
    state.note_poll("a", TargetRole::Edit, 0);
    assert!(matches!(state.before_run(TargetRole::Edit, &window, None, 9 * SEC), BeforeRun::Submit));
    assert!(matches!(state.before_run(TargetRole::Client, &None, None, 0), BeforeRun::Submit));
    let step = state.before_run(TargetRole::Client, &window, None, SEC);
    assert!(matches!(step, BeforeRun::Sleep { nanos: 250_000_000, deadline: 11_000_000_000 }));
    let step = state.before_run(TargetRole::Client, &window, Some(11 * SEC), 10 * SEC);
    assert!(matches!(step, BeforeRun::Sleep { deadline: 11_000_000_000, .. }));
    match state.before_run(TargetRole::Client, &window, Some(11 * SEC), 11 * SEC) {
        BeforeRun::Fail { message } => assert!(message.ends_with("(Studio instance: a)")),
        _ => panic!("the time is up"),
    }
    state.note_poll("a", TargetRole::Client, 11 * SEC);
    let step = state.before_run(TargetRole::Client, &window, Some(11 * SEC), 11 * SEC);
    assert!(matches!(step, BeforeRun::Submit));
}
