use rbx_studio_mcp::commands::{AckRequest, RunCommandResponse, ToolArguments};
use rbx_studio_mcp::polling::{poll_instance, PollStep};
use rbx_studio_mcp::role::TargetRole;
use rbx_studio_mcp::state::{AppState, Delivery};
use rbx_studio_mcp::tools::{InsertModel, ToolArgumentValues};
use std::sync::Arc;

const SEC: u64 = 1_000_000_000;

fn command(id: Option<u128>, target: TargetRole, instance: Option<&str>) -> ToolArguments {
    ToolArguments {
        args: Arc::new(ToolArgumentValues::InsertModel(InsertModel { query: "tree".to_string() })),
        id,
        target,
        instance: instance.map(|i| i.to_string()),
    }
}

fn queue(state: &mut AppState<&'static str>, id: u128, target: TargetRole, instance: &str) {
    state.enqueue(command(Some(id), target, Some(instance)), id, "caller");
}

fn poll(
    state: &mut AppState<&'static str>,
    role: TargetRole,
    instance: &str,
    now: u64,
) -> (Option<u128>, Vec<Delivery<&'static str>>) {
    let (step, deliveries) = state.poll(role, instance, now, now);
    match step {
        PollStep::Deliver { command } => (command.id, deliveries),
        PollStep::Locked => (None, deliveries),
        PollStep::Wait { .. } => panic!("the time is up"),
    }
}

fn response(id: u128, success: bool, text: &str) -> RunCommandResponse {
    RunCommandResponse { success, response: text.to_string(), id }
}

#[test]
fn polls_without_an_instance_share_one() {
    assert_eq!(poll_instance(None), "default");
    assert_eq!(poll_instance(Some("0|Place1")), "0|Place1");
}

#[test]
fn each_poller_gets_its_commands_in_order() {
    let mut state = AppState::new();
    queue(&mut state, 1, TargetRole::Edit, "a");
    queue(&mut state, 2, TargetRole::Client, "a");
    queue(&mut state, 3, TargetRole::Edit, "b");
    queue(&mut state, 4, TargetRole::Edit, "a");
    assert_eq!(poll(&mut state, TargetRole::Edit, "b", 0).0, Some(3));
    assert_eq!(poll(&mut state, TargetRole::Edit, "a", 0).0, Some(1));
    assert_eq!(poll(&mut state, TargetRole::Server, "a", 0).0, None);
    assert_eq!(poll(&mut state, TargetRole::Edit, "a", 0).0, Some(4));
    assert_eq!(poll(&mut state, TargetRole::Client, "a", 0).0, Some(2));
    assert_eq!(poll(&mut state, TargetRole::Edit, "a", 0).0, None);
}

#[test]
fn commands_without_a_window_are_not_handed_out() {
    let mut state = AppState::new();
    state.enqueue(command(Some(1), TargetRole::Edit, None), 1, "caller");
    assert_eq!(poll(&mut state, TargetRole::Edit, "default", 0).0, None);
}

#[test]
fn commands_without_an_id_are_not_tracked() {
    let mut state = AppState::new();
    state.enqueue(command(None, TargetRole::Edit, Some("a")), 9, "caller");
    let (step, _) = state.poll(TargetRole::Edit, "a", 0, 0);
    assert!(matches!(step, PollStep::Deliver { command } if command.id.is_none()));
    assert_eq!(poll(&mut state, TargetRole::Edit, "a", 60 * SEC).0, None);
}

#[test]
fn legacy_polls_receive_nothing() {
    let mut state = AppState::new();
    queue(&mut state, 1, TargetRole::Edit, "default");
    assert_eq!(poll(&mut state, TargetRole::Legacy, "default", 0).0, None);
    assert!(state.knows_no_instance());
    assert_eq!(poll(&mut state, TargetRole::Edit, "default", 0).0, Some(1));
}

#[test]
fn held_polls_wait_in_steps() {
    let mut state: AppState<&str> = AppState::new();
    let (step, _) = state.poll(TargetRole::Edit, "a", 15 * SEC, 0);
    assert!(matches!(step, PollStep::Wait { nanos: 1_000_000_000 }));
    let (step, _) = state.poll(TargetRole::Edit, "a", 15 * SEC, 14 * SEC + SEC / 2);
    assert!(matches!(step, PollStep::Wait { nanos: 500_000_000 }));
    let (step, _) = state.poll(TargetRole::Edit, "a", 15 * SEC, 15 * SEC);
    assert!(matches!(step, PollStep::Locked));
}

#[test]
fn lost_deliveries_are_repeated_first() {
    let mut state = AppState::new();
    queue(&mut state, 1, TargetRole::Edit, "a");
    queue(&mut state, 2, TargetRole::Edit, "a");
    assert_eq!(poll(&mut state, TargetRole::Edit, "a", 0).0, Some(1));
    // Just before the acknowledgement is due the next command goes out, after that the first again.
    assert_eq!(poll(&mut state, TargetRole::Edit, "a", 3 * SEC - 1).0, Some(2));
    assert_eq!(poll(&mut state, TargetRole::Edit, "a", 3 * SEC).0, Some(1));
}

#[test]
fn acknowledged_commands_are_not_repeated() {
    let mut state = AppState::new();
    queue(&mut state, 1, TargetRole::Edit, "a");
    assert_eq!(poll(&mut state, TargetRole::Edit, "a", 0).0, Some(1));
    state.ack(&AckRequest { id: 1 });
    assert_eq!(poll(&mut state, TargetRole::Edit, "a", 60 * SEC).0, None);
}

#[test]
fn a_late_acknowledgement_drops_the_duplicate() {
    let mut state = AppState::new();
    queue(&mut state, 1, TargetRole::Edit, "a");
    queue(&mut state, 2, TargetRole::Edit, "a");
    assert_eq!(poll(&mut state, TargetRole::Edit, "a", 0).0, Some(1));
    let told = state.requeue_expired_inflight(3 * SEC);
    assert!(told.is_empty());
    state.ack(&AckRequest { id: 1 });
    assert_eq!(poll(&mut state, TargetRole::Edit, "a", 3 * SEC).0, Some(2));
    assert_eq!(poll(&mut state, TargetRole::Edit, "a", 3 * SEC).0, None);
}

#[test]
fn five_deliveries_are_enough() {
    let mut state = AppState::new();
    queue(&mut state, 1, TargetRole::Edit, "a");
    for attempt in 0..5u64 {
        let (delivered, told) = poll(&mut state, TargetRole::Edit, "a", attempt * 3 * SEC);
        assert_eq!(delivered, Some(1));
        assert!(told.is_empty());
    }
    let (delivered, told) = poll(&mut state, TargetRole::Edit, "a", 15 * SEC);
    assert_eq!(delivered, None);
    assert_eq!(told.len(), 1);
    assert_eq!(told[0].channel, "caller");
    assert_eq!(
        told[0].result,
        Err("Failed to deliver the command to Roblox Studio after 5 attempts. Studio may be frozen or the MCP plugin disconnected.".to_string())
    );
    assert!(state.respond(response(1, true, "late")).is_none());
}

#[test]
fn deliveries_that_expire_together_all_return() {
    let mut state = AppState::new();
    for id in 1..=4 {
        queue(&mut state, id, TargetRole::Edit, "a");
    }
    for id in 1..=4 {
        assert_eq!(poll(&mut state, TargetRole::Edit, "a", 0).0, Some(id));
    }
    let mut again: Vec<u128> = Vec::new();
    for _ in 1..=4 {
        again.push(poll(&mut state, TargetRole::Edit, "a", 3 * SEC).0.unwrap());
    }
    again.sort();
    assert_eq!(again, vec![1, 2, 3, 4]);
}

#[test]
fn responses_reach_the_caller_once() {
    let mut state = AppState::new();
    queue(&mut state, 1, TargetRole::Edit, "a");
    state.enqueue(command(Some(2), TargetRole::Edit, Some("a")), 2, "second");
    assert_eq!(poll(&mut state, TargetRole::Edit, "a", 0).0, Some(1));
    let delivery = state.respond(response(1, true, "done")).unwrap();
    assert_eq!(delivery.channel, "caller");
    assert_eq!(delivery.result, Ok("done".to_string()));
    assert!(state.respond(response(1, true, "done")).is_none());
    let delivery = state.respond(response(2, false, "broken")).unwrap();
    assert_eq!(delivery.channel, "second");
    assert_eq!(delivery.result, Err("broken".to_string()));
    // The response was an acknowledgement too, of the first command in flight and of the second in
    // the queue.
    assert_eq!(poll(&mut state, TargetRole::Edit, "a", 60 * SEC).0, None);
}

#[test]
fn forgotten_commands_leave_no_trace() {
    let mut state = AppState::new();
    queue(&mut state, 1, TargetRole::Edit, "a");
    queue(&mut state, 2, TargetRole::Edit, "a");
    assert_eq!(state.forget(1), Some("caller"));
    assert_eq!(state.forget(1), None);
    assert_eq!(poll(&mut state, TargetRole::Edit, "a", 0).0, Some(2));
    assert_eq!(state.forget(2), Some("caller"));
    assert_eq!(poll(&mut state, TargetRole::Edit, "a", 60 * SEC).0, None);
}

#[test]
fn results_are_delivered_where_somebody_waits() {
    let mut state = AppState::new();
    queue(&mut state, 1, TargetRole::Edit, "a");
    assert!(state.deliver_result(None, Ok("x".to_string())).is_none());
    assert!(state.deliver_result(Some(7), Ok("x".to_string())).is_none());
    let delivery = state.deliver_result(Some(1), Ok("x".to_string())).unwrap();
    assert_eq!((delivery.channel, delivery.result), ("caller", Ok("x".to_string())));
    assert_eq!(state.close_output(1), None);
}

#[test]
fn a_command_taken_and_put_back_is_first_again() {
    let mut state = AppState::new();
    queue(&mut state, 1, TargetRole::Edit, "a");
    queue(&mut state, 2, TargetRole::Edit, "a");
    let task = state.pop_front().unwrap();
    assert_eq!(task.command.id, Some(1));
    assert_eq!(task.attempts, 0);
    state.push_front(task);
    assert_eq!(poll(&mut state, TargetRole::Edit, "a", 0).0, Some(1));
    assert_eq!(state.pop_front().unwrap().command.id, Some(2));
    assert!(state.pop_front().is_none());
}

#[test]
fn new_ids_are_random_uuids() {
    let args = Arc::new(ToolArgumentValues::InsertModel(InsertModel { query: "x".to_string() }));
    let (first, a) = ToolArguments::new(args, TargetRole::Server, Some("0|P".to_string()));
    let (second, b) = first.clone().with_id();
    for id in [a, b] {
        let uuid = uuid::Uuid::from_u128(id);
        assert_eq!(uuid.get_version_num(), 4);
        assert_eq!(uuid.get_variant(), uuid::Variant::RFC4122);
    }
    assert_ne!(a, b);
    assert_eq!(first.id, Some(a));
    assert_eq!(second.id, Some(b));
    assert_eq!(second.target, TargetRole::Server);
    assert_eq!(second.instance, Some("0|P".to_string()));
    assert!(Arc::ptr_eq(&first.args, &second.args));
    assert_eq!(first.with_given_id(5).id, Some(5));
}

#[test]
fn an_unanswered_command_is_delivered_five_times_seconds_apart() {
    let mut state = AppState::new();
    queue(&mut state, 1, TargetRole::Edit, "a");
    let mut times: Vec<u64> = Vec::new();
    let mut now: u64 = 0;
    while now < 60 * SEC {
        // Other commands come and go meanwhile.
        let other = 1000 + u128::from(now);
        queue(&mut state, other, TargetRole::Edit, "a");
        for _ in 0..3 {
            match poll(&mut state, TargetRole::Edit, "a", now).0 {
                Some(1) => times.push(now),
                Some(id) => {
                    let _ = state.respond(response(id, true, "done"));
                }
                None => {}
            }
        }
        now += 700_000_000;
    }
    assert_eq!(times.len(), 5);
    for pair in times.windows(2) {
        assert!(pair[1] - pair[0] >= 3 * SEC);
    }
}
