//! What holds of the router's operations, whatever they are called with: how the result of a call and
//! the state after it relate to its arguments and to the state before it.

use crate::command_laws::{
    deliveries_are_given_up_after_three_seconds, lost_callers_are_told, no_lost_caller_is_passed_over,
    only_rendering_errors_restore, polls_are_answered_with_their_own_commands,
    pollers_find_their_oldest_command, timeouts_tell_the_seconds,
    waits_end_at_their_deadline,
};
use crate::commands::{AckRequest, RunCommandResponse, ToolArguments};
use crate::instances::{connected_ids, display_spec, is_connected, role_is_fresh};
use crate::laws::poll_connects;
use crate::polling::{poll_deadline, poll_follows, poll_instance, PollStep};
use crate::proxy::{
    serve_step, ForwardEnd, ForwardOutcome, ForwardStep, ProxyReady, ProxyStep, ProxyWaiting,
    ServeAction, ServeEvent,
};
use crate::role::{legacy_role, TargetRole};
use crate::routing::{auto_instance, poll_status_spec, InstanceSummary};
use crate::runs::{
    role_deadline, role_missing_text, AfterRestore, AfterRun, BeforeRun, Execution, NotRendering,
    PendingRun, Retry, WaitOutcome,
};
use crate::state::{lemma_without, next_for, AppState, Delivery, QueuedTask, RouterView};
use crate::text::{contains_text, decimal_spec, string_view, texts};
use crate::text_laws::{
    found_text_stands_between, sorted_lists_hold_nothing_twice, splitting_takes_apart,
    splitting_undoes_joining,
};
use crate::timing::execution_timeout_spec;
use crate::tools::ToolArgumentValues;
use crate::window_laws::{reported_data_models_are_those_that_poll, windows_are_shown_by_name};
use std::sync::Arc;
use vstd::prelude::*;

verus! {

/// Whether a command is for one DataModel of one window.
pub open spec fn is_for(command: ToolArguments, role: TargetRole, window: Seq<char>) -> bool {
    command.target == role && (command.instance matches Some(own) && own@ == window)
}

/// A command is handed out only to its own DataModel of its own window, and it is the oldest of those
/// that are queued for it; the other commands stay queued, in their order. Nothing is handed out only
/// where nothing is queued for it.
pub proof fn commands_are_handed_to_their_own_data_model<C>(
    state: &mut AppState<C>,
    role: TargetRole,
    window: &str,
    now: u64,
    command: Option<ToolArguments>,
)
    requires
        call_ensures(AppState::<C>::hand_out, (state, role, window, now), command),
    ensures
        command matches Some(command) ==> is_for(command, role, window@) && exists|at: int|
            {
                &&& 0 <= at < old(state)@.queue.len()
                &&& (#[trigger] old(state)@.queue[at]).command == command
                &&& final(state)@.queue == old(state)@.queue.remove(at)
                &&& forall|i: int|
                    0 <= i < at ==> !is_for((#[trigger] old(state)@.queue[i]).command, role, window@)
            },
        command is None ==> final(state)@ == old(state)@ && forall|i: int|
            0 <= i < old(state)@.queue.len() ==> !is_for(
                (#[trigger] old(state)@.queue[i]).command,
                role,
                window@,
            ),
        final(state)@.outputs == old(state)@.outputs,
        final(state)@.instances == old(state)@.instances,
{
    pollers_find_their_oldest_command(old(state)@.queue, role, window@);
    if let Some(at) = next_for(old(state)@.queue, role, window@) {
        assert(old(state)@.queue[at].command == command->0);
    }
}

/// A poll is answered only with a command for its own DataModel of its own window, and where one is
/// queued, it is answered with one. Without one it is told so at its deadline and not before, and looks
/// again after a second, or at its deadline where that comes first.
pub proof fn polls_get_commands_for_their_own_data_model<C>(
    state: &mut AppState<C>,
    role: TargetRole,
    window: &str,
    deadline: u64,
    now: u64,
    step: (PollStep, Vec<Delivery<C>>),
)
    requires
        call_ensures(AppState::<C>::poll, (state, role, window, deadline, now), step),
    ensures
        step.0 matches PollStep::Deliver { command } ==> is_for(command, role, window@),
        step.0 is Locked ==> now >= deadline,
        step.0 matches PollStep::Wait { nanos } ==> now < deadline && if deadline - now < 1_000_000_000 {
            now + nanos == deadline
        } else {
            nanos == 1_000_000_000
        },
        step.0 !is Deliver ==> forall|i: int|
            0 <= i < old(state)@.queue.len() ==> !is_for(
                (#[trigger] old(state)@.queue[i]).command,
                role,
                window@,
            ),
        role != TargetRole::Legacy ==> role_is_fresh(final(state)@.instances, window@, role, now),
{
    let noted = old(state)@.noted(window@, role, now);
    let order = choose|order: Seq<u128>|
        poll_follows(noted, order, role, window@, deadline, now, step, final(state)@);
    polls_are_answered_with_their_own_commands(
        noted,
        order,
        role,
        window@,
        deadline,
        now,
        step,
        final(state)@,
    );
    assert(noted.queue == old(state)@.queue);
    if role != TargetRole::Legacy {
        poll_connects(old(state)@.instances, window@, role, now, now);
    }
    lemma_sweeps_keep_windows(noted, order);
}

/// The next poll, of whichever DataModel, gives a delivery up that was not acknowledged for three
/// seconds. Its command is queued again or answers the poll, and its caller waits on; or, after five
/// deliveries, its caller is told that it failed and waits no longer. A delivery that is not so old is
/// left alone, and no other caller is told anything.
pub proof fn polls_give_lost_deliveries_up<C>(
    state: &mut AppState<C>,
    role: TargetRole,
    window: &str,
    deadline: u64,
    now: u64,
    step: (PollStep, Vec<Delivery<C>>),
    id: u128,
    at: int,
)
    requires
        call_ensures(AppState::<C>::poll, (state, role, window, deadline, now), step),
        old(state)@.valid(),
        old(state)@.inflight.contains_key(id),
    ensures
        ({
            let (before, after) = (old(state)@, final(state)@);
            let task = before.inflight[id].task;
            let late = before.inflight[id].delivered_at + 3_000_000_000 <= now;
            &&& late && task.attempts < 5 ==> after.queue.contains(task) || (
            step.0 matches PollStep::Deliver { command } && command == task.command)
            &&& late && task.attempts >= 5 && before.outputs.contains_key(id) ==> {
                &&& !after.outputs.contains_key(id)
                &&& exists|k: int|
                    0 <= k < step.1@.len() && (#[trigger] step.1@[k]).channel == before.outputs[id]
                        && step.1@[k].result is Err
            }
            &&& !late || task.attempts < 5 ==> after.outputs.contains_key(id)
                == before.outputs.contains_key(id)
            &&& !late ==> after.inflight.contains_key(id)
        }),
        0 <= at < step.1@.len() ==> step.1@[at].result is Err && exists|lost: u128|
            {
                &&& #[trigger] old(state)@.inflight.contains_key(lost)
                &&& old(state)@.inflight[lost].delivered_at + 3_000_000_000 <= now
                &&& old(state)@.inflight[lost].task.attempts >= 5
                &&& old(state)@.outputs.contains_key(lost)
                &&& step.1@[at].channel == old(state)@.outputs[lost]
            },
{
    let noted = old(state)@.noted(window@, role, now);
    let order = choose|order: Seq<u128>|
        poll_follows(noted, order, role, window@, deadline, now, step, final(state)@);
    let swept = noted.swept(order);
    let task = noted.inflight[id].task;
    deliveries_are_given_up_after_three_seconds(noted, now, order, id);
    if noted.inflight[id].delivered_at + 3_000_000_000 <= now {
        if task.attempts >= 5 && noted.outputs.contains_key(id) {
            no_lost_caller_is_passed_over(noted, now, order, step.1@, id);
        }
        if task.attempts < 5 {
            let k = choose|k: int| 0 <= k < swept.queue.len() && swept.queue[k] == task;
            if let Some(found) = next_for(swept.queue, role, window@) {
                pollers_find_their_oldest_command(swept.queue, role, window@);
                let rest = swept.queue.remove(found);
                if k < found {
                    assert(rest[k] == task);
                } else if k > found {
                    assert(rest[k - 1] == task);
                }
            }
        }
    }
    if 0 <= at < step.1@.len() {
        lost_callers_are_told(noted, now, order, step.1@, at, id);
        let lost = choose|lost: u128|
            {
                &&& #[trigger] noted.inflight.contains_key(lost)
                &&& noted.inflight[lost].delivered_at + 3_000_000_000 <= now
                &&& noted.inflight[lost].task.attempts >= 5
                &&& noted.outputs.contains_key(lost)
                &&& step.1@[at].channel == noted.outputs[lost]
            };
        assert(old(state)@.inflight.contains_key(lost));
    }
}

proof fn lemma_sweeps_keep_windows<C>(state: RouterView<C>, order: Seq<u128>)
    ensures
        state.swept(order).instances == state.instances,
    decreases order.len(),
{
    if order.len() > 0 {
        lemma_sweeps_keep_windows(state, order.drop_last());
    }
}

/// A poll is held for a quarter of a minute, and a command waits ten seconds for its DataModel.
pub proof fn polls_and_waits_have_their_time(now: u64, poll: u64, wait: u64)
    requires
        call_ensures(poll_deadline, (now,), poll),
        call_ensures(role_deadline, (now,), wait),
        now < 1_000_000_000_000_000_000,
    ensures
        poll == now + 15_000_000_000,
        wait == now + 10_000_000_000,
{
}

/// A poll counts for the window that it names; one that names none counts for the default window and
/// has the legacy role.
pub proof fn unnamed_polls_count_for_the_default_window(
    named: &str,
    own: &str,
    other: &str,
    role: TargetRole,
)
    requires
        call_ensures(poll_instance, (Some(named),), own),
        call_ensures(poll_instance, (None,), other),
        call_ensures(legacy_role, (), role),
    ensures
        own@ == named@,
        other@ == "default"@,
        role == TargetRole::Legacy,
{
}

/// An acknowledged command is not in flight any more, or not queued any more; every other command stays
/// where it was, and every caller waits on.
pub proof fn acknowledged_commands_are_not_delivered_again<C>(
    state: &mut AppState<C>,
    ack: &AckRequest,
    other: u128,
)
    requires
        call_ensures(AppState::<C>::ack, (state, ack), ()),
        other != ack.id,
    ensures
        !final(state)@.inflight.contains_key(ack.id),
        !old(state)@.inflight.contains_key(ack.id) ==> forall|i: int|
            0 <= i < final(state)@.queue.len() ==> (#[trigger] final(state)@.queue[i]).command.id != Some(
                ack.id,
            ),
        old(state)@.inflight.contains_key(ack.id) ==> final(state)@.queue == old(state)@.queue,
        final(state)@.inflight.contains_key(other) == old(state)@.inflight.contains_key(other),
        forall|i: int|
            0 <= i < old(state)@.queue.len() && (#[trigger] old(state)@.queue[i]).command.id == Some(other)
                ==> final(state)@.queue.contains(old(state)@.queue[i]),
        final(state)@.outputs == old(state)@.outputs,
        final(state)@.instances == old(state)@.instances,
{
    lemma_without(old(state)@.queue, ack.id);
    assert forall|i: int|
        0 <= i < old(state)@.queue.len() && (#[trigger] old(state)@.queue[i]).command.id == Some(
            other,
        ) implies final(state)@.queue.contains(old(state)@.queue[i]) by {
        assert(old(state)@.queue.contains(old(state)@.queue[i]));
    }
}

/// A response reaches the caller that waits for it, on its own channel, as it is; where nobody waits it
/// goes nowhere. Either way nothing of its command is left, so it is not delivered again, and every
/// other caller waits on.
pub proof fn responses_reach_their_caller<C>(
    state: &mut AppState<C>,
    payload: RunCommandResponse,
    delivery: Option<Delivery<C>>,
    other: u128,
)
    requires
        call_ensures(AppState::<C>::respond, (state, payload), delivery),
        other != payload.id,
    ensures
        old(state)@.outputs.contains_key(payload.id) <==> delivery is Some,
        delivery matches Some(delivery) ==> {
            &&& delivery.channel == old(state)@.outputs[payload.id]
            &&& payload.success ==> (delivery.result matches Ok(text) && text@ == payload.response@)
            &&& !payload.success ==> (delivery.result matches Err(text) && text@ == payload.response@)
        },
        !final(state)@.outputs.contains_key(payload.id),
        !final(state)@.inflight.contains_key(payload.id),
        forall|i: int|
            0 <= i < final(state)@.queue.len() ==> (#[trigger] final(state)@.queue[i]).command.id != Some(
                payload.id,
            ),
        final(state)@.outputs.contains_key(other) == old(state)@.outputs.contains_key(other),
        old(state)@.outputs.contains_key(other) ==> final(state)@.outputs[other]
            == old(state)@.outputs[other],
        final(state)@.inflight.contains_key(other) == old(state)@.inflight.contains_key(other),
{
    lemma_without(old(state)@.queue, payload.id);
}

/// A command that is run is queued last, with the arguments, the role and the window that it was run
/// with and under the id by which its caller waits, for as long as its kind of command may take.
pub proof fn runs_queue_their_own_command<C>(
    state: &mut AppState<C>,
    args: &Arc<ToolArgumentValues>,
    target: TargetRole,
    instance: &Option<String>,
    channel: C,
    run: PendingRun,
)
    requires
        call_ensures(AppState::<C>::submit, (state, args, target, instance, channel), run),
    ensures
        ({
            let task = final(state)@.queue.last();
            &&& final(state)@.queue.len() == old(state)@.queue.len() + 1
            &&& final(state)@.queue.drop_last() == old(state)@.queue
            &&& task.command.args == *args
            &&& task.command.target == target
            &&& task.command.instance == *instance
            &&& task.command.id == Some(run.id)
            &&& task.attempts == 0
            &&& final(state)@.outputs.contains_key(run.id) && final(state)@.outputs[run.id] == channel
            &&& final(state)@.inflight == old(state)@.inflight
            &&& final(state)@.instances == old(state)@.instances
            &&& run.target == target
            &&& run.instance == *instance
            &&& run.run_timeout == execution_timeout_spec(**args)
        }),
{
    assert(final(state)@.queue.drop_last() =~= old(state)@.queue);
}

/// A command for the edit DataModel, one without a window, and one of a server that knows no window are
/// queued at once, and any other as soon as its own DataModel of its own window polls. Until then it
/// looks again every quarter of a second, for ten seconds in all, and then it fails.
pub proof fn commands_are_run_when_their_data_model_polls<C>(
    state: &AppState<C>,
    target: TargetRole,
    instance: &Option<String>,
    waiting: Option<u64>,
    now: u64,
    step: BeforeRun,
)
    requires
        call_ensures(AppState::<C>::before_run, (state, target, instance, waiting, now), step),
        now < 1_000_000_000_000_000_000,
    ensures
        instance is None ==> step is Submit,
        waiting is None && (target == TargetRole::Edit || state@.instances.is_empty()) ==> step is Submit,
        instance matches Some(window) ==> role_is_fresh(state@.instances, window@, target, now)
            ==> step is Submit,
        instance matches Some(window) ==> !role_is_fresh(state@.instances, window@, target, now) ==> {
            let waits = target != TargetRole::Edit && !state@.instances.is_empty();
            &&& waiting is None && waits ==> (step matches BeforeRun::Sleep { nanos, deadline } && nanos
                == 250_000_000 && deadline == now + 10_000_000_000)
            &&& waiting matches Some(until) ==> now < until ==> (step matches BeforeRun::Sleep {
                nanos,
                deadline,
            } && nanos == 250_000_000 && deadline == until)
            &&& waiting matches Some(until) ==> now >= until ==> (step matches BeforeRun::Fail { message }
                && contains_text(message@, display_spec(window@)) && contains_text(
                message@,
                target.missing_text(),
            ))
        },
{
    if let (Some(until), Some(window)) = (waiting, *instance) {
        waits_end_at_their_deadline(step, state@.instances, target, window@, until, now);
    }
}

/// A result that was received is passed on as it is. A command that took too long is an error, and
/// nothing of it is left to be delivered later. A channel that was closed is an error and changes
/// nothing. Commands and callers that it is not about stay as they are.
pub proof fn waits_end_with_their_result<C>(
    state: &mut AppState<C>,
    run: PendingRun,
    outcome: WaitOutcome,
    now: u64,
    result: Result<String, String>,
    other: u128,
)
    requires
        call_ensures(AppState::<C>::finish_run, (state, run, outcome, now), result),
        other != run.id,
    ensures
        outcome matches WaitOutcome::Received { result: received } ==> {
            &&& result == received
            &&& final(state)@.queue == old(state)@.queue
            &&& final(state)@.inflight == old(state)@.inflight
        },
        outcome is TimedOut ==> {
            &&& result matches Err(message) && contains_text(
                message@,
                "Timed out after "@ + decimal_spec(run.run_timeout as nat / 1_000_000_000) + "s"@,
            ) && contains_text(
                message@,
                poll_status_spec(old(state)@.instances, string_view(run.instance), run.target, now),
            )
            &&& !final(state)@.inflight.contains_key(run.id)
            &&& forall|i: int|
                0 <= i < final(state)@.queue.len() ==> (#[trigger] final(state)@.queue[i]).command.id
                    != Some(run.id)
        },
        outcome is Closed ==> result is Err && final(state)@ == old(state)@,
        outcome !is Closed ==> !final(state)@.outputs.contains_key(run.id),
        final(state)@.outputs.contains_key(other) == old(state)@.outputs.contains_key(other),
        old(state)@.outputs.contains_key(other) ==> final(state)@.outputs[other]
            == old(state)@.outputs[other],
        final(state)@.inflight.contains_key(other) == old(state)@.inflight.contains_key(other),
        final(state)@.instances == old(state)@.instances,
{
    lemma_without(old(state)@.queue, run.id);
    timeouts_tell_the_seconds(
        run.run_timeout as nat,
        poll_status_spec(old(state)@.instances, string_view(run.instance), run.target, now),
    );
}

/// A command is run again only after an error that says that Studio is not rendering, and then as the
/// same command on the same window; every other result is final.
pub proof fn only_unrendered_commands_are_run_again(
    call: Execution,
    result: Result<String, String>,
    next: AfterRun,
    before: Seq<char>,
    behind: Seq<char>,
)
    requires
        call_ensures(Execution::after_run, (call, result), next),
    ensures
        result is Ok ==> (next matches AfterRun::Done { result: r } && r == result),
        result matches Err(error) ==> error@ == before + "Studio is not rendering"@ + behind ==> (
        next matches AfterRun::Restore { failed } && failed.call == call && failed.error == error),
        next matches AfterRun::Restore { failed } ==> {
            &&& result matches Err(error) && contains_text(error@, "Studio is not rendering"@)
            &&& failed.call == call
        },
        next matches AfterRun::Done { result: r } ==> r == result,
{
    only_rendering_errors_restore(before, behind, before);
}

/// Once its window is restored the same command is run again; where the window could not be restored,
/// the first error and the reason are told.
pub proof fn restored_windows_lead_to_the_same_command(
    failed: NotRendering,
    restored: Result<String, String>,
    next: AfterRestore,
)
    requires
        call_ensures(NotRendering::after_restore, (failed, restored), next),
    ensures
        restored matches Ok(title) ==> (next matches AfterRestore::Run { retry } && retry.call == failed.call
            && retry.title == title),
        restored matches Err(reason) ==> (next matches AfterRestore::Done { result: Err(message) }
            && contains_text(message@, failed.error@) && contains_text(message@, reason@)),
{
    if let Err(reason) = restored {
        let nothing = Seq::<char>::empty();
        let middle = " Automatic window restore did not work: "@;
        let message = failed.error@ + middle + reason@;
        assert(message =~= nothing + failed.error@ + (middle + reason@));
        assert(message =~= (failed.error@ + middle) + reason@ + nothing);
        found_text_stands_between(message, failed.error@);
        found_text_stands_between(message, reason@);
    }
}

/// The second run of a command decides: its result is passed on, and its error with the window that was
/// restored for it.
pub proof fn the_second_run_decides(
    retry: Retry,
    result: Result<String, String>,
    last: Result<String, String>,
)
    requires
        call_ensures(Retry::after_retry, (retry, result), last),
    ensures
        result matches Ok(text) ==> (last matches Ok(t) && t == text),
        result matches Err(error) ==> (last matches Err(message) && contains_text(message@, error@)
            && contains_text(message@, retry.title@)),
{
    if let Err(error) = result {
        let nothing = Seq::<char>::empty();
        let front = " (the Studio window '"@;
        let end = "' was restored automatically and the command retried once)"@;
        let message = error@ + front + retry.title@ + end;
        assert(message =~= nothing + error@ + (front + retry.title@ + end));
        assert(message =~= (error@ + front) + retry.title@ + end);
        found_text_stands_between(message, error@);
        found_text_stands_between(message, retry.title@);
    }
}

/// The window to restore is looked for by the place's name, which is all that follows the first bar of
/// the window's id; without a bar, or without a window, nothing is looked for.
pub proof fn windows_to_restore_are_found_by_name(
    failed: &NotRendering,
    hint: Option<String>,
    place_id: Seq<char>,
    name: Seq<char>,
)
    requires
        call_ensures(NotRendering::hint, (failed,), hint),
        !place_id.contains('|'),
    ensures
        failed.call.instance matches Some(id) ==> id@ == place_id + seq!['|'] + name ==> (
        hint matches Some(text) && text@ == name),
        failed.call.instance matches Some(id) ==> id@ == place_id ==> hint is None,
        failed.call.instance is None ==> hint is None,
{
    splitting_undoes_joining(place_id, name, '|');
    splitting_takes_apart(place_id, '|');
}

/// A forwarded command without an id is rejected. One for the edit DataModel may be queued at once, any
/// other waits for its DataModel first; each with its own arguments and target, for the window that it
/// names or, where it names none, for the only connected one. Without such a window it fails.
pub proof fn forwarded_commands_are_admitted<C>(
    state: &AppState<C>,
    command: ToolArguments,
    now: u64,
    step: ProxyStep,
)
    requires
        call_ensures(AppState::<C>::admit_proxied, (state, command, now), step),
    ensures
        command.id is None <==> step is Reject,
        step !is Sleep,
        command.id is Some && command.instance is Some && command.target == TargetRole::Edit ==> (
        step matches ProxyStep::Ready { ready } && {
            let (to, id) = ready.parts();
            &&& Some(id) == command.id && to.id == command.id
            &&& to.args == command.args
            &&& is_for(to, command.target, command.instance->0@)
        }),
        command.id is Some && command.instance is Some && command.target != TargetRole::Edit ==> (
        step matches ProxyStep::WaitForRole { waiting } && {
            let (to, id, window) = waiting.parts();
            &&& Some(id) == command.id && to.id == command.id
            &&& to.args == command.args
            &&& is_for(to, command.target, command.instance->0@)
            &&& window == command.instance->0@
        }),
        command.id is Some && command.instance is None ==> match auto_instance(
            connected_ids(state@.instances, now),
        ) {
            Err(reason) => step matches ProxyStep::Reply { response } && !response.success
                && Some(response.id) == command.id && response.response@ == reason,
            Ok(window) => {
                &&& command.target == TargetRole::Edit ==> (step matches ProxyStep::Ready { ready }
                    && ready.parts().0.args == command.args && is_for(
                    ready.parts().0,
                    command.target,
                    window,
                ))
                &&& command.target != TargetRole::Edit ==> (step matches ProxyStep::WaitForRole {
                    waiting,
                } && waiting.parts().0.args == command.args && waiting.parts().2 == window && is_for(
                    waiting.parts().0,
                    command.target,
                    window,
                ))
            },
        },
{
}

/// A forwarded command that waits may be queued, unchanged, once its own DataModel of its own window
/// polls; before its deadline it looks again after a quarter of a second, and from then on it fails.
pub proof fn forwarded_commands_wait_for_their_data_model<C>(
    state: &AppState<C>,
    waiting: ProxyWaiting,
    deadline: u64,
    now: u64,
    step: ProxyStep,
)
    requires
        call_ensures(AppState::<C>::await_proxied_role, (state, waiting, deadline, now), step),
    ensures
        ({
            let (command, id, window) = waiting.parts();
            let polls = role_is_fresh(state@.instances, window, command.target, now);
            &&& polls ==> (step matches ProxyStep::Ready { ready } && ready.parts() == (command, id))
            &&& !polls && now < deadline ==> (step matches ProxyStep::Sleep { waiting: same, nanos } && same
                == waiting && nanos == 250_000_000)
            &&& !polls && now >= deadline ==> (step matches ProxyStep::Reply { response }
                && !response.success && response.id == id && contains_text(
                response.response@,
                display_spec(window),
            ) && contains_text(response.response@, command.target.missing_text()))
        }),
{
    let (command, _, window) = waiting.parts();
    let text = role_missing_text(command.target, window);
    let (shown, missing) = (display_spec(window), command.target.missing_text());
    assert(text =~= (missing + " (Studio instance: "@) + shown + ")"@);
    assert(text =~= Seq::<char>::empty() + missing + (" (Studio instance: "@ + shown + ")"@));
    found_text_stands_between(text, shown);
    found_text_stands_between(text, missing);
}

/// A forwarded command is queued last, as it is, and its result is awaited under its own id for as long
/// as its kind of command may take.
pub proof fn forwarded_commands_are_queued<C>(
    state: &mut AppState<C>,
    ready: ProxyReady,
    channel: C,
    wait: (u128, u128),
)
    requires
        call_ensures(AppState::<C>::enqueue_proxied, (state, ready, channel), wait),
    ensures
        ({
            let (command, id) = ready.parts();
            &&& wait.0 == id
            &&& wait.1 == execution_timeout_spec(*command.args)
            &&& final(state)@.queue.drop_last() == old(state)@.queue
            &&& final(state)@.queue.last().command == command
            &&& final(state)@.queue.last().attempts == 0
            &&& final(state)@.outputs == old(state)@.outputs.insert(id, channel)
            &&& final(state)@.inflight == old(state)@.inflight
            &&& final(state)@.instances == old(state)@.instances
        }),
{
    assert(final(state)@.queue.drop_last() =~= old(state)@.queue);
}

/// A forwarded command is answered with its result, under its id, and nothing of it is left; one that
/// took too long is answered that it failed.
pub proof fn forwarded_commands_are_answered<C>(
    state: &mut AppState<C>,
    id: u128,
    run_timeout: u128,
    outcome: WaitOutcome,
    response: Result<RunCommandResponse, String>,
    other: u128,
)
    requires
        call_ensures(AppState::<C>::finish_proxied, (state, id, run_timeout, outcome), response),
        other != id,
    ensures
        outcome matches WaitOutcome::Received { result: Ok(text) } ==> (response matches Ok(answer)
            && answer.success && answer.response@ == text@ && answer.id == id),
        outcome matches WaitOutcome::Received { result: Err(text) } ==> (response matches Ok(answer)
            && !answer.success && answer.response@ == text@ && answer.id == id),
        outcome is TimedOut ==> (response matches Ok(answer) && !answer.success && answer.id == id
            && answer.response@ == "Timed out after "@ + decimal_spec(run_timeout as nat / 1_000_000_000)
            + "s waiting for Roblox Studio"@),
        outcome is Closed ==> response is Err && final(state)@ == old(state)@,
        outcome !is Closed ==> {
            &&& !final(state)@.outputs.contains_key(id)
            &&& !final(state)@.inflight.contains_key(id)
            &&& forall|i: int|
                0 <= i < final(state)@.queue.len() ==> (#[trigger] final(state)@.queue[i]).command.id
                    != Some(id)
        },
        final(state)@.outputs.contains_key(other) == old(state)@.outputs.contains_key(other),
        old(state)@.outputs.contains_key(other) ==> final(state)@.outputs[other]
            == old(state)@.outputs[other],
{
    lemma_without(old(state)@.queue, id);
}

/// A forwarding server forwards its oldest command, and waits half a minute longer for the answer than
/// the command may take; without one it idles, and where it is to shut down it takes none.
pub proof fn forwarding_takes_the_oldest<C>(state: &mut AppState<C>, shutdown: bool, step: ForwardStep)
    requires
        call_ensures(AppState::<C>::next_forward, (state, shutdown), step),
    ensures
        shutdown ==> step is Shutdown && final(state)@.queue == old(state)@.queue,
        !shutdown && old(state)@.queue.len() == 0 ==> step is Idle && final(state)@.queue
            == old(state)@.queue,
        !shutdown && old(state)@.queue.len() > 0 ==> (step matches ForwardStep::Forward {
            entry,
            request_timeout,
        } && seq![entry] + final(state)@.queue == old(state)@.queue && request_timeout
            == execution_timeout_spec(*entry.command.args) + 30_000_000_000),
        final(state)@.outputs == old(state)@.outputs,
        final(state)@.inflight == old(state)@.inflight,
        final(state)@.instances == old(state)@.instances,
{
    if !shutdown && old(state)@.queue.len() > 0 {
        assert(seq![old(state)@.queue[0]] + old(state)@.queue.skip(1) =~= old(state)@.queue);
    }
}

/// The answer to a forwarded command reaches its caller, where it still waits, and ends its wait. Where
/// the port owner is gone the command is the first in the queue again and its caller waits on.
pub proof fn forwarded_answers_reach_their_caller<C>(
    state: &mut AppState<C>,
    entry: QueuedTask,
    id: u128,
    outcome: ForwardOutcome,
    end: ForwardEnd<C>,
)
    requires
        call_ensures(AppState::<C>::forwarded, (state, entry, outcome), end),
        entry.command.id == Some(id),
    ensures
        outcome is Unreachable <==> end is PrimaryGone,
        outcome is Unreachable ==> {
            &&& final(state)@.queue == seq![entry] + old(state)@.queue
            &&& final(state)@.outputs == old(state)@.outputs
        },
        outcome !is Unreachable ==> {
            &&& !final(state)@.outputs.contains_key(id)
            &&& final(state)@.queue == old(state)@.queue
            &&& end matches ForwardEnd::Deliver { delivery } && (old(state)@.outputs.contains_key(id)
                <==> delivery is Some) && (delivery matches Some(delivery) ==> delivery.channel
                == old(state)@.outputs[id])
        },
        outcome matches ForwardOutcome::Reply { response } ==> (end matches ForwardEnd::Deliver {
            delivery: Some(delivery),
        } ==> (response.success ==> (delivery.result matches Ok(text) && text@ == response.response@)) && (
        !response.success ==> (delivery.result matches Err(text) && text@ == response.response@))),
        outcome matches ForwardOutcome::BadReply { error: told } ==> (end matches ForwardEnd::Deliver {
            delivery: Some(delivery),
        } ==> (delivery.result matches Err(text) && text@ == told@)),
        outcome matches ForwardOutcome::Failed { error: told } ==> (end matches ForwardEnd::Deliver {
            delivery: Some(delivery),
        } ==> (delivery.result matches Err(text) && contains_text(text@, told@))),
        final(state)@.inflight == old(state)@.inflight,
        final(state)@.instances == old(state)@.instances,
{
    if let ForwardOutcome::Failed { error } = outcome {
        let message = "Failed to forward command to the primary MCP instance: "@ + error@;
        assert(message =~= message + Seq::<char>::empty());
        found_text_stands_between(message, error@);
    }
}

/// A server tries the port unless it is to stop, serves where the port is free and forwards where it is
/// taken. It starts over, after a quarter of a second, when serving failed or the port owner is gone,
/// and it stops in every other case.
pub proof fn servers_take_over_the_port(event: ServeEvent, action: ServeAction)
    requires
        call_ensures(serve_step, (event,), action),
    ensures
        event matches ServeEvent::Start { closed } ==> (closed ==> action is Stop) && (!closed
            ==> action is Bind),
        event matches ServeEvent::Bound { free } ==> (free ==> action is Serve) && (!free
            ==> action is Forward),
        event matches ServeEvent::Served { failed } ==> (!failed ==> action is Stop) && (failed ==> (
        action matches ServeAction::Restart { nanos } && nanos == 250_000_000)),
        event is ForwardingShutDown ==> action is Stop,
        event is PrimaryGone ==> (action matches ServeAction::Restart { nanos } && nanos == 250_000_000),
{
}

/// A report has one row for each connected window and none for any other, and the row names exactly the
/// DataModels that poll.
pub proof fn reports_show_connected_windows<C>(
    state: &AppState<C>,
    now: u64,
    rows: Vec<InstanceSummary>,
    id: Seq<char>,
    at: int,
)
    requires
        call_ensures(AppState::<C>::instance_summaries, (state, now), rows),
        0 <= at < rows@.len(),
    ensures
        is_connected(state@.instances, id, now) <==> exists|i: int|
            0 <= i < rows@.len() && (#[trigger] rows@[i]).id@ == id,
        forall|i: int| 0 <= i < at ==> (#[trigger] rows@[i]).id@ != rows@[at].id@,
        ({
            let roles = texts(rows@[at].connected_roles@);
            let polls = |role: TargetRole| role_is_fresh(state@.instances, rows@[at].id@, role, now);
            &&& roles.contains("edit"@) <==> polls(TargetRole::Edit)
            &&& roles.contains("server"@) <==> polls(TargetRole::Server)
            &&& roles.contains("client"@) <==> polls(TargetRole::Client)
            &&& roles.len() > 0
        }),
        Some(rows@[at].seconds_since_poll) == state@.instances[rows@[at].id@].seconds_since_poll_spec(now),
        forall|place_id: Seq<char>, name: Seq<char>|
            !place_id.contains('|') && rows@[at].id@ == #[trigger] (place_id + seq!['|'] + name)
                ==> rows@[at].place_id@ == place_id && rows@[at].name@ == name,
{
    let instances = state@.instances;
    let ids = connected_ids(instances, now);
    if is_connected(instances, id, now) {
        assert(ids.contains(id));
        let i = choose|i: int| 0 <= i < ids.len() && ids[i] == id;
        assert(rows@[i].id@ == id);
    }
    if exists|i: int| 0 <= i < rows@.len() && (#[trigger] rows@[i]).id@ == id {
        let i = choose|i: int| 0 <= i < rows@.len() && (#[trigger] rows@[i]).id@ == id;
        assert(ids.contains(ids[i]));
    }
    assert(ids.contains(ids[at]));
    reported_data_models_are_those_that_poll(rows@[at], ids[at], instances[ids[at]], now);
    assert forall|place_id: Seq<char>, name: Seq<char>|
        !place_id.contains('|') && rows@[at].id@ == #[trigger] (place_id + seq!['|']
            + name) implies rows@[at].place_id@ == place_id && rows@[at].name@ == name by {
        windows_are_shown_by_name(place_id, name);
    }
    assert forall|i: int| 0 <= i < at implies (#[trigger] rows@[i]).id@ != rows@[at].id@ by {
        sorted_lists_hold_nothing_twice(ids, i, at);
    }
}

/// A new router knows no window, has nothing queued or in flight, and nobody waits. A command that names
/// no DataModel is for the edit DataModel.
pub proof fn routers_begin_empty<C>(state: AppState<C>, role: TargetRole)
    requires
        call_ensures(AppState::<C>::new, (), state),
        call_ensures(TargetRole::default, (), role),
    ensures
        state@.queue.len() == 0,
        forall|id: u128| !#[trigger] state@.inflight.contains_key(id),
        forall|id: u128| !#[trigger] state@.outputs.contains_key(id),
        forall|window: Seq<char>| !#[trigger] state@.instances.contains_key(window),
        role == TargetRole::Edit,
{
}

} // verus!
