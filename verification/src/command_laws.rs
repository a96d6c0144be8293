//! What becomes of a command, from the queue to its caller, said of the command's own fields and of
//! times in seconds.

use crate::commands::{RunCommandResponse, ToolArguments};
use crate::instances::{connected_ids, noted, role_is_fresh, StudioInstance};
use crate::laws::retries_come_first;
use crate::polling::{poll_follows, poll_instance_spec, PollStep};
use crate::proxy::{
    fails_with, forwarded_result, proxy_instance, proxy_timeout_text, readdressed, serve_spec,
    ForwardOutcome, ServeAction, ServeEvent, STUDIO_PLUGIN_PORT,
};
use crate::role::TargetRole;
use crate::routing::auto_instance;
use crate::runs::{
    before_run_spec, deadline_spec, not_rendering, role_missing_text, timed_out_text, BeforeRun,
};
use crate::state::{
    addressed, delivers, lemma_next_for, lemma_swept_others, lemma_without, next_for,
    response_result, tells_undelivered, without, Delivery, QueuedTask, RouterView,
};
use crate::text::{contains_text, decimal_spec};
use crate::text_laws::found_text_stands_between;
use crate::timing::{
    ACK_TIMEOUT, FORWARD_GRACE, INFLIGHT_SWEEP_INTERVAL, INSTANCE_PRUNE_AFTER_SECS,
    LONG_POLL_DURATION, MAX_DELIVERY_ATTEMPTS, PORT_REBIND_DELAY, RESTORE_SETTLE_DELAY,
    ROLE_FRESHNESS, ROLE_WAIT_INTERVAL, ROLE_WAIT_TIMEOUT,
};
use vstd::prelude::*;

verus! {

/// A poller is handed the oldest queued command with its own role as target and its own window as
/// instance, and nothing where the queue holds no such command.
pub proof fn pollers_find_their_oldest_command(
    queue: Seq<QueuedTask>,
    role: TargetRole,
    instance: Seq<char>,
)
    ensures
        match next_for(queue, role, instance) {
            Some(at) => {
                &&& 0 <= at < queue.len()
                &&& queue[at].command.target == role
                &&& queue[at].command.instance matches Some(own) && own@ == instance
                &&& forall|i: int|
                    0 <= i < at && (#[trigger] queue[i]).command.target == role ==> !(
                    queue[i].command.instance matches Some(own) && own@ == instance)
            },
            None => forall|i: int|
                0 <= i < queue.len() && (#[trigger] queue[i]).command.target == role ==> !(
                queue[i].command.instance matches Some(own) && own@ == instance),
        },
{
    lemma_next_for(queue, role, instance);
    assert forall|i: int| 0 <= i < queue.len() implies addressed(#[trigger] queue[i], role, instance) == (
    queue[i].command.target == role && (queue[i].command.instance matches Some(own) && own@
        == instance)) by {}
}

/// A poll is answered only with a command whose target is its role and whose instance is its window;
/// and where such a command is queued, it is answered with one. Without one it is held until its
/// deadline and no longer, and looks again at least every second.
pub proof fn polls_are_answered_with_their_own_commands<C>(
    noted: RouterView<C>,
    order: Seq<u128>,
    role: TargetRole,
    instance: Seq<char>,
    deadline: u64,
    now: u64,
    step: (PollStep, Vec<Delivery<C>>),
    after: RouterView<C>,
)
    requires
        poll_follows(noted, order, role, instance, deadline, now, step, after),
    ensures
        match step.0 {
            PollStep::Deliver { command } => {
                &&& command.target == role
                &&& command.instance matches Some(own) && own@ == instance
            },
            PollStep::Locked => now >= deadline,
            PollStep::Wait { nanos } => {
                &&& now < deadline
                &&& 0 < nanos <= 1_000_000_000
                &&& now + nanos <= deadline
            },
        },
        step.0 !is Deliver ==> forall|i: int|
            0 <= i < noted.queue.len() && (#[trigger] noted.queue[i]).command.target == role ==> !(
            noted.queue[i].command.instance matches Some(own) && own@ == instance),
{
    let queue = noted.swept(order).queue;
    pollers_find_their_oldest_command(queue, role, instance);
    retries_come_first(noted, order);
    let retried = choose|retried: int|
        {
            &&& 0 <= retried <= noted.swept(order).queue.len()
            &&& #[trigger] noted.swept(order).queue.skip(retried) == noted.queue
        };
    assert forall|i: int|
        step.0 !is Deliver && 0 <= i < noted.queue.len() && (#[trigger] noted.queue[i]).command.target
            == role implies !(noted.queue[i].command.instance matches Some(own) && own@ == instance) by {
        assert(queue.skip(retried)[i] == queue[retried + i]);
    }
}

/// A poll that looks again before its deadline is never told that there is no command, and one that
/// looks at its deadline or later never waits on.
pub proof fn polls_end_at_their_deadline<C>(
    noted: RouterView<C>,
    order: Seq<u128>,
    role: TargetRole,
    instance: Seq<char>,
    deadline: u64,
    now: u64,
    step: (PollStep, Vec<Delivery<C>>),
    after: RouterView<C>,
)
    requires
        poll_follows(noted, order, role, instance, deadline, now, step, after),
    ensures
        now < deadline ==> step.0 !is Locked,
        now >= deadline ==> step.0 !is Wait,
        deadline - now >= 1_000_000_000 ==> (step.0 matches PollStep::Wait { nanos } ==> nanos
            == 1_000_000_000),
{
}

/// What a poll is answered with was in the queue, or in flight for three seconds or more.
pub proof fn polls_deliver_what_was_waiting<C>(
    noted: RouterView<C>,
    order: Seq<u128>,
    role: TargetRole,
    instance: Seq<char>,
    deadline: u64,
    now: u64,
    step: (PollStep, Vec<Delivery<C>>),
    after: RouterView<C>,
)
    requires
        poll_follows(noted, order, role, instance, deadline, now, step, after),
        step.0 is Deliver,
    ensures
        ({
            let command = step.0->command;
            ||| exists|i: int| 0 <= i < noted.queue.len() && (#[trigger] noted.queue[i]).command == command
            ||| exists|id: u128|
                {
                    &&& #[trigger] noted.inflight.contains_key(id)
                    &&& noted.inflight[id].delivered_at + 3_000_000_000 <= now
                    &&& noted.inflight[id].task.command == command
                }
        }),
{
    let queue = noted.swept(order).queue;
    pollers_find_their_oldest_command(queue, role, instance);
    let at = next_for(queue, role, instance)->0;
    lemma_swept_origin(noted, order, at);
    if !noted.queue.contains(queue[at]) {
        let id = choose|id: u128| #[trigger] order.contains(id) && noted.inflight[id].task == queue[at];
        assert(noted.expired(id, now));
    } else {
        let i = choose|i: int| 0 <= i < noted.queue.len() && noted.queue[i] == queue[at];
        assert(noted.queue[i].command == step.0->command);
    }
}

proof fn lemma_swept_origin<C>(state: RouterView<C>, order: Seq<u128>, at: int)
    requires
        order.no_duplicates(),
        0 <= at < state.swept(order).queue.len(),
    ensures
        ({
            let task = state.swept(order).queue[at];
            ||| state.queue.contains(task)
            ||| exists|id: u128| #[trigger] order.contains(id) && state.inflight[id].task == task
                && task.attempts < 5
        }),
    decreases order.len(),
{
    if order.len() > 0 {
        let shorter = order.drop_last();
        let last = order.last();
        assert(order[order.len() - 1] == last);
        assert(order.contains(last));
        assert(shorter.no_duplicates());
        let before = state.swept(shorter);
        assert(!shorter.contains(last)) by {
            if shorter.contains(last) {
                let i = choose|i: int| 0 <= i < shorter.len() && shorter[i] == last;
                assert(order[i] == order[order.len() - 1]);
            }
        }
        lemma_swept_inflight_kept(state, shorter, last);
        let task = before.inflight[last].task;
        let again = task.attempts < 5;
        if again && at == 0 {
            assert(state.swept(order).queue[0] == task);
        } else {
            let k = if again {
                at - 1
            } else {
                at
            };
            assert(before.queue[k] == state.swept(order).queue[at]);
            lemma_swept_origin(state, shorter, k);
            if !state.queue.contains(before.queue[k]) {
                let id = choose|id: u128| #[trigger]
                    shorter.contains(id) && state.inflight[id].task == before.queue[k]
                        && before.queue[k].attempts < 5;
                let i = choose|i: int| 0 <= i < shorter.len() && shorter[i] == id;
                assert(order[i] == id);
                assert(order.contains(id));
            }
        }
    }
}

proof fn lemma_swept_inflight_kept<C>(state: RouterView<C>, order: Seq<u128>, id: u128)
    requires
        !order.contains(id),
    ensures
        state.swept(order).inflight[id] == state.inflight[id],
    decreases order.len(),
{
    if order.len() > 0 {
        let shorter = order.drop_last();
        if shorter.contains(id) {
            let i = choose|i: int| 0 <= i < shorter.len() && shorter[i] == id;
            assert(order[i] == id);
        }
        assert(order[order.len() - 1] == order.last());
        lemma_swept_inflight_kept(state, shorter, id);
    }
}

/// Handing out takes one command from the queue, leaves the others in their order, and remembers the
/// command, with one more delivery and the time, until it is acknowledged. Nothing else changes.
pub proof fn handing_out_moves_one_command<C>(state: RouterView<C>, at: int, now: u64, other: u128)
    requires
        0 <= at < state.queue.len(),
        state.queue[at].attempts < u32::MAX,
    ensures
        ({
            let task = state.queue[at];
            let after = state.handed_out(at, now);
            &&& after.queue == state.queue.take(at) + state.queue.skip(at + 1)
            &&& task.command.id matches Some(id) ==> {
                &&& after.inflight.contains_key(id)
                &&& after.inflight[id].delivered_at == now
                &&& after.inflight[id].task.command == task.command
                &&& after.inflight[id].task.attempts == task.attempts + 1
            }
            &&& task.command.id != Some(other) ==> {
                &&& after.inflight.contains_key(other) == state.inflight.contains_key(other)
                &&& state.inflight.contains_key(other) ==> after.inflight[other] == state.inflight[other]
            }
            &&& after.outputs == state.outputs
            &&& after.instances == state.instances
        }),
{
    assert(state.queue.remove(at) =~= state.queue.take(at) + state.queue.skip(at + 1));
}

/// A queued command comes last, as it is and not yet delivered, and its caller waits under its id.
/// Nothing else changes.
pub proof fn queueing_appends_one_command<C>(
    state: RouterView<C>,
    command: ToolArguments,
    id: u128,
    channel: C,
    other: u128,
)
    ensures
        ({
            let after = state.queued(command, id, channel);
            &&& after.queue.len() == state.queue.len() + 1
            &&& after.queue.take(state.queue.len() as int) == state.queue
            &&& after.queue.last().command == command
            &&& after.queue.last().attempts == 0
            &&& after.outputs.contains_key(id) && after.outputs[id] == channel
            &&& other != id ==> {
                &&& after.outputs.contains_key(other) == state.outputs.contains_key(other)
                &&& state.outputs.contains_key(other) ==> after.outputs[other] == state.outputs[other]
            }
            &&& after.inflight == state.inflight
            &&& after.instances == state.instances
        }),
{
    assert(state.queued(command, id, channel).queue.take(state.queue.len() as int) =~= state.queue);
}

/// A delivery is given up exactly when three seconds have passed without an acknowledgement. Up to
/// its fifth delivery the command then goes back to the queue and its caller waits on; after the
/// fifth it is gone, and its caller is told.
pub proof fn deliveries_are_given_up_after_three_seconds<C>(
    state: RouterView<C>,
    now: u64,
    order: Seq<u128>,
    id: u128,
)
    requires
        state.valid(),
        state.lists_expired(now, order),
        state.inflight.contains_key(id),
    ensures
        ({
            let after = state.swept(order);
            let task = state.inflight[id].task;
            let late = state.inflight[id].delivered_at + 3_000_000_000 <= now;
            &&& !late ==> {
                &&& after.inflight.contains_key(id)
                &&& after.inflight[id] == state.inflight[id]
            }
            &&& late ==> !after.inflight.contains_key(id)
            &&& late && task.attempts < 5 ==> after.queue.contains(task)
            &&& late && task.attempts >= 5 ==> {
                &&& !after.outputs.contains_key(id)
                &&& state.told(order).contains(id) == state.outputs.contains_key(id)
            }
            &&& !late || task.attempts < 5 ==> {
                &&& after.outputs.contains_key(id) == state.outputs.contains_key(id)
                &&& state.outputs.contains_key(id) ==> after.outputs[id] == state.outputs[id]
                &&& !state.told(order).contains(id)
            }
        }),
{
    let late = state.inflight[id].delivered_at + 3_000_000_000 <= now;
    let pred = |id: u128|
        state.inflight[id].task.attempts >= MAX_DELIVERY_ATTEMPTS
            && state.outputs.contains_key(id);
    assert(state.expired(id, now) == late);
    if state.told(order).contains(id) {
        let m = choose|m: int| 0 <= m < state.told(order).len() && state.told(order)[m] == id;
        order.lemma_filter_pred(pred, m);
        assert(order.filter(pred).contains(id));
        order.lemma_filter_contains_rev(pred, id);
        assert(order.contains(id));
    }
    if late {
        crate::laws::lost_deliveries_are_retried(state, now, order, id);
    } else {
        assert(!order.contains(id));
        lemma_swept_others(state, order, id);
    }
}

/// Whether a command was in flight for three seconds or more, and delivered less than five times.
pub open spec fn was_lost<C>(state: RouterView<C>, now: u64, task: QueuedTask) -> bool {
    exists|id: u128|
        {
            &&& #[trigger] state.inflight.contains_key(id)
            &&& state.inflight[id].delivered_at + 3_000_000_000 <= now
            &&& state.inflight[id].task == task
            &&& task.attempts < 5
        }
}

/// What is queued anew by giving up deliveries had been in flight for three seconds and delivered less
/// than five times; what was queued before keeps its place behind it, and the windows stay as they
/// are.
pub proof fn only_lost_commands_are_queued_anew<C>(state: RouterView<C>, now: u64, order: Seq<u128>)
    requires
        state.valid(),
        state.lists_expired(now, order),
    ensures
        ({
            let after = state.swept(order);
            &&& after.instances == state.instances
            &&& exists|retried: int|
                {
                    &&& 0 <= retried <= after.queue.len()
                    &&& #[trigger] after.queue.skip(retried) == state.queue
                    &&& forall|i: int| 0 <= i < retried ==> was_lost(state, now, #[trigger] after.queue[i])
                }
        }),
{
    let after = state.swept(order);
    let retried = lemma_retried(state, order);
    assert forall|i: int| 0 <= i < retried implies was_lost(state, now, #[trigger] after.queue[i]) by {
        assert(comes_back(state, order, after.queue[i]));
        let id = choose|id: u128| #[trigger]
            order.contains(id) && state.inflight[id].task == after.queue[i];
        assert(state.expired(id, now));
        assert(state.inflight.contains_key(id));
    }
    assert(after.queue.skip(retried) == state.queue);
    assert forall|id: u128| #[trigger] order.contains(id) implies state.inflight.contains_key(id) by {
        assert(state.expired(id, now));
    }
    crate::state::lemma_swept_valid(state, order);
}

spec fn comes_back<C>(state: RouterView<C>, order: Seq<u128>, task: QueuedTask) -> bool {
    &&& task.attempts < 5
    &&& exists|id: u128| #[trigger] order.contains(id) && state.inflight[id].task == task
}

proof fn lemma_retried<C>(state: RouterView<C>, order: Seq<u128>) -> (retried: int)
    requires
        order.no_duplicates(),
    ensures
        0 <= retried <= state.swept(order).queue.len(),
        state.swept(order).queue.skip(retried) == state.queue,
        forall|i: int|
            0 <= i < retried ==> comes_back(state, order, #[trigger] state.swept(order).queue[i]),
    decreases order.len(),
{
    let after = state.swept(order);
    if order.len() == 0 {
        assert(after.queue.skip(0) =~= state.queue);
        0
    } else {
        let shorter = order.drop_last();
        let last = order.last();
        let before = state.swept(shorter);
        assert(order[order.len() - 1] == last);
        assert(order.contains(last));
        assert(shorter.no_duplicates());
        assert(!shorter.contains(last)) by {
            if shorter.contains(last) {
                let i = choose|i: int| 0 <= i < shorter.len() && shorter[i] == last;
                assert(order[i] == order[order.len() - 1]);
            }
        }
        lemma_swept_inflight_kept(state, shorter, last);
        let fewer = lemma_retried(state, shorter);
        let again = before.inflight[last].task.attempts < 5;
        let retried = if again {
            fewer + 1
        } else {
            fewer
        };
        assert(after.queue.skip(retried) =~= before.queue.skip(fewer));
        assert forall|i: int| 0 <= i < retried implies comes_back(
            state,
            order,
            #[trigger] after.queue[i],
        ) by {
            if again && i == 0 {
                assert(order.contains(last) && state.inflight[last].task == after.queue[0]);
            } else {
                let k = if again {
                    i - 1
                } else {
                    i
                };
                assert(after.queue[i] == before.queue[k]);
                assert(comes_back(state, shorter, before.queue[k]));
                let id = choose|id: u128| #[trigger]
                    shorter.contains(id) && state.inflight[id].task == before.queue[k];
                let j = choose|j: int| 0 <= j < shorter.len() && shorter[j] == id;
                assert(order[j] == id);
                assert(order.contains(id));
            }
        }
        retried
    }
}

/// The callers of commands that were lost for the fifth time, and no others, are told so by an error
/// on the channel they wait on; it says how often the command was delivered.
pub proof fn lost_callers_are_told<C>(
    state: RouterView<C>,
    now: u64,
    order: Seq<u128>,
    deliveries: Seq<Delivery<C>>,
    at: int,
    id: u128,
)
    requires
        state.valid(),
        state.lists_expired(now, order),
        tells_undelivered(state, state.told(order), deliveries),
        0 <= at < deliveries.len(),
    ensures
        deliveries[at].result is Err,
        exists|lost: u128|
            {
                &&& #[trigger] state.inflight.contains_key(lost)
                &&& state.inflight[lost].delivered_at + 3_000_000_000 <= now
                &&& state.inflight[lost].task.attempts >= 5
                &&& state.outputs.contains_key(lost)
                &&& deliveries[at].channel == state.outputs[lost]
                &&& contains_text(
                    deliveries[at].result->Err_0@,
                    decimal_spec(state.inflight[lost].task.attempts as nat),
                )
            },
{
    let told = state.told(order);
    let lost = told[at];
    let pred = |id: u128|
        state.inflight[id].task.attempts >= MAX_DELIVERY_ATTEMPTS
            && state.outputs.contains_key(id);
    order.lemma_filter_pred(pred, at);
    assert(order.filter(pred).contains(lost));
    order.lemma_filter_contains_rev(pred, lost);
    assert(order.contains(lost));
    assert(state.expired(lost, now));
    let count = decimal_spec(state.inflight[lost].task.attempts as nat);
    let text = deliveries[at].result->Err_0@;
    assert(delivers(
        deliveries[at],
        state.outputs[lost],
        Err(crate::state::undelivered_text(state.inflight[lost].task.attempts as nat)),
    ));
    assert(text =~= "Failed to deliver the command to Roblox Studio after "@ + count
        + " attempts. Studio may be frozen or the MCP plugin disconnected."@);
    found_text_stands_between(text, count);
}

/// Each caller of a command that was lost for the fifth time is told.
pub proof fn no_lost_caller_is_passed_over<C>(
    state: RouterView<C>,
    now: u64,
    order: Seq<u128>,
    deliveries: Seq<Delivery<C>>,
    id: u128,
)
    requires
        state.valid(),
        state.lists_expired(now, order),
        tells_undelivered(state, state.told(order), deliveries),
        state.inflight.contains_key(id),
        state.inflight[id].delivered_at + 3_000_000_000 <= now,
        state.inflight[id].task.attempts >= 5,
        state.outputs.contains_key(id),
    ensures
        exists|at: int|
            0 <= at < deliveries.len() && (#[trigger] deliveries[at]).channel == state.outputs[id]
                && deliveries[at].result is Err,
{
    deliveries_are_given_up_after_three_seconds(state, now, order, id);
    let told = state.told(order);
    let at = choose|at: int| 0 <= at < told.len() && told[at] == id;
    assert(delivers(
        deliveries[at],
        state.outputs[told[at]],
        Err(crate::state::undelivered_text(state.inflight[told[at]].task.attempts as nat)),
    ));
}

/// Dropping a command from the queue keeps all others, in their order.
pub proof fn dropping_keeps_the_others_in_order(
    front: Seq<QueuedTask>,
    task: QueuedTask,
    back: Seq<QueuedTask>,
    id: u128,
)
    ensures
        without(front + back, id) == without(front, id) + without(back, id),
        without(Seq::empty(), id) == Seq::<QueuedTask>::empty(),
        task.command.id == Some(id) ==> without(seq![task], id) == Seq::<QueuedTask>::empty(),
        task.command.id != Some(id) ==> without(seq![task], id) == seq![task],
{
    let keep = |task: QueuedTask| task.command.id != Some(id);
    Seq::filter_distributes_over_add(front, back, keep);
    crate::state::lemma_filter_one(task, keep);
    reveal(Seq::filter);
}

/// An acknowledgement concerns one command: that command is no longer in flight, and dropped from the
/// queue where it was not in flight. Every other command stays where it is, and every caller waits
/// on.
pub proof fn acknowledging_concerns_one_command<C>(state: RouterView<C>, id: u128, other: u128)
    ensures
        ({
            let after = state.acked(id);
            &&& !after.inflight.contains_key(id)
            &&& other != id ==> {
                &&& after.inflight.contains_key(other) == state.inflight.contains_key(other)
                &&& state.inflight.contains_key(other) ==> after.inflight[other] == state.inflight[other]
            }
            &&& state.inflight.contains_key(id) ==> after.queue == state.queue
            &&& !state.inflight.contains_key(id) ==> forall|i: int|
                0 <= i < after.queue.len() ==> (#[trigger] after.queue[i]).command.id != Some(id)
            &&& forall|task: QueuedTask|
                state.queue.contains(task) && task.command.id != Some(id) ==> #[trigger] after.queue.contains(
                    task,
                )
            &&& forall|task: QueuedTask| #[trigger]
                after.queue.contains(task) ==> state.queue.contains(task)
            &&& after.outputs == state.outputs
            &&& after.instances == state.instances
        }),
{
    lemma_without(state.queue, id);
    let after = state.acked(id);
    assert forall|task: QueuedTask| #[trigger] after.queue.contains(task) implies state.queue.contains(
        task,
    ) by {
        let i = choose|i: int| 0 <= i < after.queue.len() && after.queue[i] == task;
    }
}

/// An answer ends one wait, and changes nothing else.
pub proof fn answering_ends_one_wait<C>(state: RouterView<C>, id: u128, other: u128)
    ensures
        ({
            let after = state.answered(id);
            &&& !after.outputs.contains_key(id)
            &&& other != id ==> {
                &&& after.outputs.contains_key(other) == state.outputs.contains_key(other)
                &&& state.outputs.contains_key(other) ==> after.outputs[other] == state.outputs[other]
            }
            &&& after.queue == state.queue
            &&& after.inflight == state.inflight
            &&& after.instances == state.instances
        }),
{
}

/// Forgetting a command takes it out of the queue, where the others keep their order, out of flight
/// and out of the waits.
pub proof fn forgetting_keeps_the_others_in_order<C>(
    state: RouterView<C>,
    front: Seq<QueuedTask>,
    task: QueuedTask,
    back: Seq<QueuedTask>,
    id: u128,
)
    requires
        state.queue == front + seq![task] + back,
        task.command.id == Some(id),
        forall|i: int| 0 <= i < front.len() ==> (#[trigger] front[i]).command.id != Some(id),
        forall|i: int| 0 <= i < back.len() ==> (#[trigger] back[i]).command.id != Some(id),
    ensures
        state.forgotten(id).queue == front + back,
        !state.inflight.contains_key(id) ==> state.acked(id).queue == front + back,
        !state.forgotten(id).inflight.contains_key(id),
        !state.forgotten(id).outputs.contains_key(id),
{
    dropping_keeps_the_others_in_order(front + seq![task], task, back, id);
    dropping_keeps_the_others_in_order(front, task, seq![task], id);
    lemma_nothing_dropped(front, id);
    lemma_nothing_dropped(back, id);
    assert(front + Seq::<QueuedTask>::empty() =~= front);
}

proof fn lemma_nothing_dropped(queue: Seq<QueuedTask>, id: u128)
    requires
        forall|i: int| 0 <= i < queue.len() ==> (#[trigger] queue[i]).command.id != Some(id),
    ensures
        without(queue, id) == queue,
    decreases queue.len(),
{
    reveal(Seq::filter);
    if queue.len() > 0 {
        let shorter = queue.drop_last();
        assert forall|i: int| 0 <= i < shorter.len() implies (#[trigger] shorter[i]).command.id != Some(
            id,
        ) by {
            assert(shorter[i] == queue[i]);
        }
        assert(queue.last() == queue[queue.len() - 1]);
        lemma_nothing_dropped(shorter, id);
        assert(queue =~= shorter.push(queue.last()));
    } else {
        assert(without(queue, id) =~= queue);
    }
}

/// What the plugin answers is what the caller gets, on the channel it waits on: the text as a result
/// where the command succeeded, and as an error where it failed.
pub proof fn callers_get_what_the_plugin_answers<C>(
    delivery: Delivery<C>,
    channel: C,
    payload: RunCommandResponse,
)
    requires
        delivers(delivery, channel, response_result(payload)),
    ensures
        delivery.channel == channel,
        payload.success ==> (delivery.result matches Ok(text) && text@ == payload.response@),
        !payload.success ==> (delivery.result matches Err(text) && text@ == payload.response@),
{
}

/// A deadline lies the delay ahead, or at the clock's end.
pub proof fn deadlines_lie_ahead(now: u64, delay: u64)
    ensures
        deadline_spec(now, delay) >= now,
        now + delay <= u64::MAX ==> deadline_spec(now, delay) == now + delay,
        now + delay > u64::MAX ==> deadline_spec(now, delay) == u64::MAX,
{
}

/// A command for the edit DataModel, one without a window, and one of a server that knows no window
/// are queued at once. Any other is queued as soon as its own DataModel of its own window has polled
/// within three seconds; it waits for that for ten seconds, a quarter of a second at a time, and is
/// then refused.
pub proof fn commands_wait_for_their_data_model(
    step: BeforeRun,
    instances: Map<Seq<char>, StudioInstance>,
    target: TargetRole,
    instance: Option<Seq<char>>,
    now: u64,
)
    requires
        now < 1_000_000_000_000_000_000,
        before_run_spec(step, instances, target, instance, None, now),
    ensures
        target == TargetRole::Edit || instance is None || instances.is_empty() ==> step is Submit,
        instance matches Some(id) ==> (role_is_fresh(instances, id, target, now) ==> step is Submit),
        target != TargetRole::Edit && !instances.is_empty() && instance is Some && !role_is_fresh(
            instances,
            instance->0,
            target,
            now,
        ) ==> (step matches BeforeRun::Sleep { nanos, deadline } && nanos == 250_000_000 && deadline
            == now + 10_000_000_000),
{
}

/// A command that waits is queued once its DataModel polls, looks again until its deadline, and is
/// refused from then on, by a message that names the window.
pub proof fn waits_end_at_their_deadline(
    step: BeforeRun,
    instances: Map<Seq<char>, StudioInstance>,
    target: TargetRole,
    id: Seq<char>,
    until: u64,
    now: u64,
)
    requires
        before_run_spec(step, instances, target, Some(id), Some(until), now),
    ensures
        role_is_fresh(instances, id, target, now) ==> step is Submit,
        !role_is_fresh(instances, id, target, now) && now < until ==> (step matches BeforeRun::Sleep {
            nanos,
            deadline,
        } && nanos == 250_000_000 && deadline == until),
        !role_is_fresh(instances, id, target, now) && now >= until ==> (step matches BeforeRun::Fail {
            message,
        } && contains_text(message@, crate::instances::display_spec(id)) && contains_text(
            message@,
            target.missing_text(),
        )),
{
    if !role_is_fresh(instances, id, target, now) && now >= until {
        let text = role_missing_text(target, id);
        let shown = crate::instances::display_spec(id);
        assert(text =~= (target.missing_text() + " (Studio instance: "@) + shown + ")"@);
        assert(text =~= Seq::<char>::empty() + target.missing_text() + (" (Studio instance: "@ + shown
            + ")"@));
        found_text_stands_between(text, shown);
        found_text_stands_between(text, target.missing_text());
    }
}

/// A caller whose time has run out is told how many seconds it has waited.
pub proof fn timeouts_tell_the_seconds(run_timeout: nat, status: Seq<char>)
    ensures
        contains_text(
            timed_out_text(run_timeout, status),
            "Timed out after "@ + decimal_spec(run_timeout / 1_000_000_000) + "s"@,
        ),
        contains_text(timed_out_text(run_timeout, status), status),
        contains_text(
            proxy_timeout_text(run_timeout),
            "Timed out after "@ + decimal_spec(run_timeout / 1_000_000_000) + "s"@,
        ),
{
    reveal_strlit("s waiting for Roblox Studio (");
    reveal_strlit("s waiting for Roblox Studio");
    reveal_strlit("s");
    let nothing = Seq::<char>::empty();
    let seconds = decimal_spec(run_timeout / 1_000_000_000);
    let needle = "Timed out after "@ + seconds + "s"@;
    let text = timed_out_text(run_timeout, status);
    let behind = "s waiting for Roblox Studio ("@;
    let end = "). Studio may be busy (publishing or loading) or the MCP plugin may be disconnected. Make sure Studio is open with the MCP plugin enabled, then try again."@;
    assert(behind =~= "s"@ + behind.skip(1));
    assert(text =~= nothing + needle + (behind.skip(1) + status + end));
    assert(text =~= ("Timed out after "@ + seconds + behind) + status + end);
    found_text_stands_between(text, needle);
    found_text_stands_between(text, status);
    let short = proxy_timeout_text(run_timeout);
    let tail = "s waiting for Roblox Studio"@;
    assert(tail =~= "s"@ + tail.skip(1));
    assert(short =~= nothing + needle + tail.skip(1));
    found_text_stands_between(short, needle);
}

/// A window is restored for an error exactly where the error says that Studio is not rendering.
pub proof fn only_rendering_errors_restore(before: Seq<char>, behind: Seq<char>, message: Seq<char>)
    ensures
        not_rendering(before + "Studio is not rendering"@ + behind),
        not_rendering(message) ==> exists|a: Seq<char>, b: Seq<char>|
            message == #[trigger] (a + "Studio is not rendering"@ + b),
{
    found_text_stands_between(
        before + "Studio is not rendering"@ + behind,
        "Studio is not rendering"@,
    );
    found_text_stands_between(message, "Studio is not rendering"@);
}

/// A poll that names its window counts for that window, and one that names none for the default one.
pub proof fn polls_count_for_their_window(instance: Seq<char>)
    ensures
        poll_instance_spec(Some(instance)) == instance,
        poll_instance_spec(None) == seq!['d', 'e', 'f', 'a', 'u', 'l', 't'],
{
    reveal_strlit("default");
    assert("default"@ =~= seq!['d', 'e', 'f', 'a', 'u', 'l', 't']);
}

/// A forwarded command that names a window goes there, and one that names none goes to the only
/// connected one; its arguments, its id and its target stay.
pub proof fn forwarded_commands_keep_their_address<C>(
    state: RouterView<C>,
    command: ToolArguments,
    to: ToolArguments,
    instance: Seq<char>,
    now: u64,
)
    requires
        readdressed(command, to, instance),
        proxy_instance(state, command, now) == Ok::<Seq<char>, Seq<char>>(instance),
    ensures
        to.args == command.args,
        to.id == command.id,
        to.target == command.target,
        to.instance matches Some(own) && own@ == instance,
        command.instance matches Some(own) ==> instance == own@,
        command.instance is None ==> auto_instance(connected_ids(state.instances, now)) == Ok::<
            Seq<char>,
            Seq<char>,
        >(instance),
{
}

/// A forwarded command is answered with what the port owner answers; an answer that cannot be read
/// and a request that fails are errors that say why; and an owner that is gone is no answer.
pub proof fn forwarded_answers_are_passed_on(response: RunCommandResponse, error: String)
    ensures
        response.success ==> forwarded_result(ForwardOutcome::Reply { response }) == Some(
            Ok::<Seq<char>, Seq<char>>(response.response@),
        ),
        !response.success ==> forwarded_result(ForwardOutcome::Reply { response }) == Some(
            Err::<Seq<char>, Seq<char>>(response.response@),
        ),
        forwarded_result(ForwardOutcome::BadReply { error }) == Some(
            Err::<Seq<char>, Seq<char>>(error@),
        ),
        forwarded_result(ForwardOutcome::Failed { error }) matches Some(Err(message)) && contains_text(
            message,
            error@,
        ),
        forwarded_result(ForwardOutcome::Unreachable) is None,
{
    let message = "Failed to forward command to the primary MCP instance: "@ + error@;
    assert(message =~= "Failed to forward command to the primary MCP instance: "@ + error@
        + Seq::<char>::empty());
    found_text_stands_between(message, error@);
}

/// A failed answer says that it failed, under the id of its command and with the message.
pub proof fn failures_say_so(response: RunCommandResponse, id: u128, message: Seq<char>)
    requires
        fails_with(response, id, message),
    ensures
        !response.success,
        response.id == id,
        response.response@ == message,
{
}

/// A server serves where the port is free and forwards where it is not. Where the port owner is gone,
/// or serving failed, it tries the port again after a quarter of a second; where it is told to close,
/// it stops, and only then or when serving or forwarding has ended in order.
pub proof fn servers_hold_on_to_the_port(event: ServeEvent)
    ensures
        match event {
            ServeEvent::Start { closed } => serve_spec(event) is Stop <==> closed,
            ServeEvent::Bound { free } => serve_spec(event) is Serve <==> free,
            ServeEvent::Served { failed } => serve_spec(event) is Stop <==> !failed,
            ServeEvent::ForwardingShutDown => serve_spec(event) is Stop,
            ServeEvent::PrimaryGone => true,
        },
        event is Start ==> serve_spec(event) is Stop || serve_spec(event) is Bind,
        event is Bound ==> serve_spec(event) is Serve || serve_spec(event) is Forward,
        event is PrimaryGone || (event matches ServeEvent::Served { failed } && failed) ==> (serve_spec(
            event,
        ) matches ServeAction::Restart { nanos } && nanos == 250_000_000),
{
}

/// Taking note of a poll changes what is known of the windows, and nothing else.
pub proof fn noting_a_poll_changes_windows_only<C>(
    state: RouterView<C>,
    instance: Seq<char>,
    role: TargetRole,
    now: u64,
)
    ensures
        state.noted(instance, role, now).queue == state.queue,
        state.noted(instance, role, now).inflight == state.inflight,
        state.noted(instance, role, now).outputs == state.outputs,
        state.noted(instance, role, now).instances == noted(state.instances, instance, role, now),
{
}

/// A poll is held for fifteen seconds, a command waits ten for its DataModel, a forwarded one half a
/// minute longer than its own time, a restored window has a second and a half to render again, and
/// the plugin's port is 44755.
pub proof fn clocks_are_set()
    ensures
        LONG_POLL_DURATION == 15_000_000_000,
        INFLIGHT_SWEEP_INTERVAL == 1_000_000_000,
        ACK_TIMEOUT == 3_000_000_000,
        MAX_DELIVERY_ATTEMPTS == 5,
        ROLE_FRESHNESS == 3_000_000_000,
        ROLE_WAIT_TIMEOUT == 10_000_000_000,
        ROLE_WAIT_INTERVAL == 250_000_000,
        INSTANCE_PRUNE_AFTER_SECS == 600,
        RESTORE_SETTLE_DELAY == 1_500_000_000,
        FORWARD_GRACE == 30_000_000_000,
        PORT_REBIND_DELAY == 250_000_000,
        STUDIO_PLUGIN_PORT == 44755,
{
}

} // verus!
