//! What holds of the router as a whole: of several of its operations together, and of every state it
//! can be in.

use crate::commands::ToolArguments;
use crate::instances::{
    connected_ids, is_connected, known, lists_connected, noted, pruned, role_is_fresh,
    StudioInstance,
};
use crate::polling::poll_pause;
use crate::role::TargetRole;
use crate::routing::{auto_instance, InstanceSummary};
use crate::server::{
    clears, play_aware_role_spec, rendering_role_spec, resolve_spec, row_connected, row_ids,
    row_matches, select_spec, selects, RBXStudioServer,
};
use crate::state::{
    addressed, inflight_ok, lemma_filter_remove, lemma_next_for, lemma_swept_others, lemma_without, next_for, queued_ok,
    without, QueuedTask, RouterView,
};
use crate::text::{string_view, text_less, text_order_is_total, trim_spec};
use crate::timing::{
    execution_timeout_spec, FORWARD_GRACE, INFLIGHT_SWEEP_INTERVAL, MAX_DELIVERY_ATTEMPTS,
    ROLE_FRESHNESS, ROLE_WAIT_TIMEOUT,
};
use crate::tools::ToolArgumentValues;
use vstd::prelude::*;

verus! {

/// A plugin that polls without a role registers no window and receives no command.
pub proof fn legacy_polls_starve<C>(state: RouterView<C>, instance: Seq<char>, now: u64)
    requires
        state.valid(),
    ensures
        state.noted(instance, TargetRole::Legacy, now) == state,
        next_for(state.queue, TargetRole::Legacy, instance) is None,
{
    lemma_next_for(state.queue, TargetRole::Legacy, instance);
    let found = next_for(state.queue, TargetRole::Legacy, instance);
    if found is Some {
        assert(queued_ok(state.queue[found->0]));
    }
}

/// A poll connects its role for as long as a poll counts as recent, and no longer unless another
/// poll follows.
pub proof fn poll_connects(
    instances: Map<Seq<char>, StudioInstance>,
    id: Seq<char>,
    role: TargetRole,
    now: u64,
    later: u64,
)
    requires
        role != TargetRole::Legacy,
        now <= later,
    ensures
        role_is_fresh(noted(instances, id, role, now), id, role, later) <==> later - now < ROLE_FRESHNESS,
{
    let polled = known(instances, id).polled(role, now);
    lemma_just_polled(known(instances, id), role, now);
    assert(noted(instances, id, role, now).contains_key(id));
    assert(noted(instances, id, role, now)[id] == polled);
    assert(polled.last_poll(role) == Some(now));
}

proof fn lemma_just_polled(instance: StudioInstance, role: TargetRole, now: u64)
    requires
        role != TargetRole::Legacy,
    ensures
        instance.polled(role, now).seconds_since_poll_spec(now) == Some(0u64),
        instance.polled(role, now).remembered(now),
{
}

/// A poll keeps its own window, forgets exactly the windows that have not polled for ten minutes,
/// and changes nothing that is known of the others.
pub proof fn poll_forgets_only_silent_windows(
    instances: Map<Seq<char>, StudioInstance>,
    id: Seq<char>,
    role: TargetRole,
    now: u64,
    other: Seq<char>,
)
    requires
        role != TargetRole::Legacy,
    ensures
        ({
            let after = noted(instances, id, role, now);
            &&& after.contains_key(id)
            &&& other != id ==> {
                &&& after.contains_key(other) <==> instances.contains_key(other)
                    && instances[other].remembered(now)
                &&& after.contains_key(other) ==> after[other] == instances[other]
            }
        }),
{
    lemma_just_polled(known(instances, id), role, now);
}

/// A connected window is never forgotten.
pub proof fn connected_windows_are_remembered(
    instances: Map<Seq<char>, StudioInstance>,
    id: Seq<char>,
    now: u64,
)
    requires
        is_connected(instances, id, now),
    ensures
        pruned(instances, now).contains_key(id),
        pruned(instances, now)[id] == instances[id],
{
    let instance = instances[id];
    let role = choose|role: TargetRole| instance.role_fresh_spec(role, now);
    assert(instance.role_fresh_spec(role, now));
    assert(instance.remembered(now));
}

/// A window is picked without being selected exactly when it is the only one that is connected.
pub proof fn auto_instance_is_the_only_one(
    instances: Map<Seq<char>, StudioInstance>,
    now: u64,
    ids: Seq<Seq<char>>,
    id: Seq<char>,
)
    requires
        lists_connected(instances, now, ids),
    ensures
        auto_instance(ids) == Ok::<Seq<char>, Seq<char>>(id) <==> (forall|other: Seq<char>| #[trigger]
            is_connected(instances, other, now) <==> other == id),
{
    if auto_instance(ids) == Ok::<Seq<char>, Seq<char>>(id) {
        assert forall|other: Seq<char>| #[trigger] is_connected(instances, other, now) <==> other == id by {
            assert(ids.contains(other) <==> is_connected(instances, other, now));
            assert(ids[0] == id);
        }
    }
    if forall|other: Seq<char>| #[trigger] is_connected(instances, other, now) <==> other == id {
        assert(is_connected(instances, id, now));
        assert(ids.contains(id));
        if ids.len() >= 2 {
            assert(ids.contains(ids[0]) && ids.contains(ids[1]));
            assert(text_less(ids[0], ids[1]));
            text_order_is_total(ids[0], ids[1]);
        }
    }
}

/// Where windows are known, a command only ever goes to a connected window: to the selected one if it
/// is still connected, otherwise to the single connected one.
pub proof fn resolved_window_is_connected(
    instances: Map<Seq<char>, StudioInstance>,
    selected: Option<Seq<char>>,
    now: u64,
    id: Seq<char>,
)
    requires
        !instances.is_empty(),
        lists_connected(instances, now, connected_ids(instances, now)),
    ensures
        resolve_spec(instances, selected, now) == Ok::<Option<Seq<char>>, Seq<char>>(Some(id)) <==> {
            &&& is_connected(instances, id, now)
            &&& {
                ||| selected == Some(id)
                ||| {
                    &&& selected matches Some(other) ==> !is_connected(instances, other, now)
                    &&& forall|other: Seq<char>| #[trigger]
                        is_connected(instances, other, now) ==> other == id
                }
            }
        },
{
    auto_instance_is_the_only_one(instances, now, connected_ids(instances, now), id);
}

/// A request to select a window that fails changes nothing.
pub proof fn failed_selection_changes_nothing(
    selected: Option<Seq<char>>,
    request: Seq<char>,
    rows: Seq<InstanceSummary>,
)
    ensures
        select_spec(selected, request, rows).1 is Err ==> select_spec(selected, request, rows).0 == selected,
{
}

/// A window that gets selected is connected and matches the request, and no other connected window
/// of the report does.
pub proof fn selected_window_is_the_only_match(
    selected: Option<Seq<char>>,
    request: Seq<char>,
    rows: Seq<InstanceSummary>,
)
    requires
        !clears(request),
        select_spec(selected, request, rows).1 is Ok,
    ensures
        exists|at: int|
            {
                &&& 0 <= at < rows.len()
                &&& row_connected(rows[at])
                &&& row_matches(#[trigger] rows[at], trim_spec(request))
                &&& select_spec(selected, request, rows).0 == Some(rows[at].id@)
                &&& forall|other: int|
                    0 <= other < rows.len() && row_connected(#[trigger] rows[other]) && row_matches(
                        rows[other],
                        trim_spec(request),
                    ) ==> rows[other] == rows[at]
            },
{
    let query = trim_spec(request);
    let pred = |row: InstanceSummary| row_connected(row) && row_matches(row, query);
    let found = rows.filter(pred);
    assert(found.len() == 1);
    assert(found.contains(found[0]));
    rows.lemma_filter_contains_rev(pred, found[0]);
    rows.lemma_filter_pred(pred, 0);
    let at = choose|at: int| 0 <= at < rows.len() && rows[at] == found[0];
    assert(row_ids(found)[0] == found[0].id@);
    assert forall|other: int|
        0 <= other < rows.len() && row_connected(#[trigger] rows[other]) && row_matches(rows[other], query) implies rows[other]
        == rows[at] by {
        rows.lemma_filter_contains(pred, other);
        let k = choose|k: int| 0 <= k < found.len() && found[k] == rows[other];
        assert(k == 0);
    }
    assert(row_matches(rows[at], query));
}

/// The selection is per client. Each handle belongs to one of the servers, and the clones of a handle
/// belong to the same one. A request that comes by one handle is seen by every handle of the same
/// server, and by no other: the other servers keep their selection.
pub proof fn selection_is_per_client<C>(
    servers: Seq<RBXStudioServer<C>>,
    handles: Seq<int>,
    by: int,
    other: int,
    after: RBXStudioServer<C>,
    request: Seq<char>,
    rows: Seq<InstanceSummary>,
    reply: Result<Seq<char>, Seq<char>>,
)
    requires
        0 <= by < handles.len(),
        0 <= other < handles.len(),
        0 <= handles[by] < servers.len(),
        0 <= handles[other] < servers.len(),
        selects(servers[handles[by]], after, request, rows, reply),
    ensures
        ({
            let seen = servers.update(handles[by], after)[handles[other]];
            if handles[other] == handles[by] {
                string_view(seen.selected_instance) == select_spec(
                    string_view(servers[handles[by]].selected_instance),
                    request,
                    rows,
                ).0
            } else {
                seen == servers[handles[other]]
            }
        }),
{
}

/// The commands of a queue that are for one role of one window, oldest first.
pub open spec fn lane(queue: Seq<QueuedTask>, role: TargetRole, instance: Seq<char>) -> Seq<QueuedTask> {
    queue.filter(|task: QueuedTask| addressed(task, role, instance))
}

/// Each poller receives its commands in the order in which they were queued: a new command comes
/// last.
pub proof fn new_commands_come_last<C>(
    state: RouterView<C>,
    command: ToolArguments,
    id: u128,
    channel: C,
    role: TargetRole,
    instance: Seq<char>,
)
    ensures
        ({
            let task = QueuedTask { command, attempts: 0 };
            let after = state.queued(command, id, channel);
            lane(after.queue, role, instance) == if addressed(task, role, instance) {
                lane(state.queue, role, instance).push(task)
            } else {
                lane(state.queue, role, instance)
            }
        }),
{
    reveal(Seq::filter);
    let task = QueuedTask { command, attempts: 0 };
    assert(state.queue.push(task).drop_last() == state.queue);
}

/// Each poller receives its commands in the order in which they were queued: a poll takes the oldest
/// one, and leaves the commands of every other poller, and their order, alone.
pub proof fn polls_take_the_oldest<C>(
    state: RouterView<C>,
    role: TargetRole,
    instance: Seq<char>,
    now: u64,
    other_role: TargetRole,
    other_instance: Seq<char>,
)
    ensures
        match next_for(state.queue, role, instance) {
            Some(at) => {
                let mine = lane(state.queue, role, instance);
                let after = state.handed_out(at, now);
                &&& mine.len() > 0
                &&& state.queue[at] == mine[0]
                &&& lane(after.queue, role, instance) == mine.skip(1)
                &&& (other_role, other_instance) != (role, instance) ==> lane(
                    after.queue,
                    other_role,
                    other_instance,
                ) == lane(state.queue, other_role, other_instance)
                &&& after.outputs == state.outputs
                &&& after.instances == state.instances
            },
            None => lane(state.queue, role, instance).len() == 0,
        },
{
    let queue = state.queue;
    lemma_next_for(queue, role, instance);
    match next_for(queue, role, instance) {
        Some(at) => {
            lemma_lane_without(queue, at, role, instance);
            lemma_lane_without(queue, at, other_role, other_instance);
            lemma_lane_of_others(queue.take(at), role, instance);
            let mine = lane(queue, role, instance);
            assert(mine =~= seq![queue[at]] + lane(queue.skip(at + 1), role, instance));
            assert(mine.skip(1) =~= lane(queue.skip(at + 1), role, instance));
            assert(lane(queue.remove(at), role, instance) =~= mine.skip(1));
        },
        None => {
            lemma_lane_of_others(queue, role, instance);
        },
    }
}

proof fn lemma_lane_of_others(queue: Seq<QueuedTask>, role: TargetRole, instance: Seq<char>)
    requires
        forall|i: int| 0 <= i < queue.len() ==> !addressed(#[trigger] queue[i], role, instance),
    ensures
        lane(queue, role, instance) == Seq::<QueuedTask>::empty(),
    decreases queue.len(),
{
    reveal(Seq::filter);
    if queue.len() > 0 {
        assert(queue.last() == queue[queue.len() - 1]);
        lemma_lane_of_others(queue.drop_last(), role, instance);
    }
}

proof fn lemma_lane_without(queue: Seq<QueuedTask>, at: int, role: TargetRole, instance: Seq<char>)
    requires
        0 <= at < queue.len(),
    ensures
        ({
            let before = lane(queue.take(at), role, instance);
            let behind = lane(queue.skip(at + 1), role, instance);
            &&& lane(queue.remove(at), role, instance) == before + behind
            &&& lane(queue, role, instance) == if addressed(queue[at], role, instance) {
                before + seq![queue[at]] + behind
            } else {
                before + behind
            }
        }),
{
    lemma_filter_remove(queue, at, |task: QueuedTask| addressed(task, role, instance));
}

/// A delivered command counts as delivered once more, and stays in flight until it is acknowledged;
/// it is never delivered more than five times.
pub proof fn deliveries_are_counted<C>(
    state: RouterView<C>,
    role: TargetRole,
    instance: Seq<char>,
    at: int,
    id: u128,
    now: u64,
)
    requires
        state.valid(),
        next_for(state.queue, role, instance) == Some(at),
        state.queue[at].command.id == Some(id),
    ensures
        ({
            let after = state.handed_out(at, now);
            &&& after.inflight.contains_key(id)
            &&& after.inflight[id].task.command == state.queue[at].command
            &&& after.inflight[id].task.attempts == state.queue[at].attempts + 1
            &&& after.inflight[id].task.attempts <= MAX_DELIVERY_ATTEMPTS
            &&& after.inflight[id].delivered_at == now
        }),
{
    lemma_next_for(state.queue, role, instance);
    assert(queued_ok(state.queue[at]));
}

/// A delivery that was not acknowledged in time is no longer in flight. Its command is back in the
/// queue, with its deliveries counted and its caller waiting; or, after too many deliveries, its
/// caller is told and no longer waits.
pub proof fn lost_deliveries_are_retried<C>(state: RouterView<C>, now: u64, order: Seq<u128>, id: u128)
    requires
        state.valid(),
        state.lists_expired(now, order),
        state.expired(id, now),
    ensures
        ({
            let task = state.inflight[id].task;
            let after = state.swept(order);
            &&& !after.inflight.contains_key(id)
            &&& if task.attempts < MAX_DELIVERY_ATTEMPTS {
                &&& after.queue.contains(task)
                &&& after.outputs.contains_key(id) == state.outputs.contains_key(id)
                &&& state.outputs.contains_key(id) ==> after.outputs[id] == state.outputs[id]
            } else {
                &&& !after.outputs.contains_key(id)
                &&& state.told(order).contains(id) == state.outputs.contains_key(id)
            }
        }),
{
    assert(order.contains(id));
    lemma_swept_id(state, order, id);
    let pred = |id: u128|
        state.inflight[id].task.attempts >= MAX_DELIVERY_ATTEMPTS && state.outputs.contains_key(id);
    let k = choose|k: int| 0 <= k < order.len() && order[k] == id;
    if pred(id) {
        order.lemma_filter_contains(pred, k);
    }
    if state.told(order).contains(id) {
        let m = choose|m: int| 0 <= m < state.told(order).len() && state.told(order)[m] == id;
        order.lemma_filter_pred(pred, m);
    }
}

proof fn lemma_swept_id<C>(state: RouterView<C>, order: Seq<u128>, id: u128)
    requires
        order.no_duplicates(),
        order.contains(id),
    ensures
        ({
            let task = state.inflight[id].task;
            let after = state.swept(order);
            &&& !after.inflight.contains_key(id)
            &&& if task.attempts < MAX_DELIVERY_ATTEMPTS {
                &&& after.queue.contains(task)
                &&& after.outputs.contains_key(id) == state.outputs.contains_key(id)
                &&& state.outputs.contains_key(id) ==> after.outputs[id] == state.outputs[id]
            } else {
                !after.outputs.contains_key(id)
            }
        }),
    decreases order.len(),
{
    let shorter = order.drop_last();
    let last = order.last();
    let before = state.swept(shorter);
    let after = state.swept(order);
    let k = choose|k: int| 0 <= k < order.len() && order[k] == id;
    assert(order[order.len() - 1] == last);
    assert(shorter.no_duplicates());
    if last == id {
        assert(!shorter.contains(id)) by {
            if shorter.contains(id) {
                let i = choose|i: int| 0 <= i < shorter.len() && shorter[i] == id;
                assert(order[i] == order[order.len() - 1]);
            }
        }
        lemma_swept_others(state, shorter, id);
        lemma_swept_inflight(state, shorter, id);
        let task = state.inflight[id].task;
        if task.attempts < MAX_DELIVERY_ATTEMPTS {
            assert(after.queue[0] == task);
        }
    } else {
        assert(shorter[k] == id);
        lemma_swept_id(state, shorter, id);
        let task = state.inflight[id].task;
        if task.attempts < MAX_DELIVERY_ATTEMPTS {
            let i = choose|i: int| 0 <= i < before.queue.len() && before.queue[i] == task;
            if before.inflight[last].task.attempts < MAX_DELIVERY_ATTEMPTS {
                assert(after.queue[i + 1] == task);
            } else {
                assert(after.queue[i] == task);
            }
        }
    }
}

proof fn lemma_swept_inflight<C>(state: RouterView<C>, order: Seq<u128>, id: u128)
    requires
        !order.contains(id),
    ensures
        state.swept(order).inflight[id] == state.inflight[id],
    decreases order.len(),
{
    if order.len() > 0 {
        let shorter = order.drop_last();
        if shorter.contains(id) {
            let i = choose|i: int| 0 <= i < shorter.len() && shorter[i] == id;
            assert(order[i] == id);
        }
        assert(order[order.len() - 1] == order.last());
        lemma_swept_inflight(state, shorter, id);
    }
}

/// Lost deliveries are retried before anything else: what was queued keeps its place behind them.
pub proof fn retries_come_first<C>(state: RouterView<C>, order: Seq<u128>)
    ensures
        exists|retried: int|
            {
                &&& 0 <= retried <= state.swept(order).queue.len()
                &&& #[trigger] state.swept(order).queue.skip(retried) == state.queue
            },
    decreases order.len(),
{
    if order.len() == 0 {
        assert(state.swept(order).queue.skip(0) =~= state.queue);
    } else {
        let shorter = order.drop_last();
        retries_come_first(state, shorter);
        let before = state.swept(shorter);
        let retried = choose|retried: int|
            {
                &&& 0 <= retried <= before.queue.len()
                &&& #[trigger] before.queue.skip(retried) == state.queue
            };
        if before.inflight[order.last()].task.attempts < MAX_DELIVERY_ATTEMPTS {
            assert(state.swept(order).queue.skip(retried + 1) =~= before.queue.skip(retried));
        } else {
            assert(state.swept(order).queue.skip(retried) == state.queue);
        }
    }
}

/// Whether every command is in one place only: no two queued commands have the same id, and none of
/// them is in flight.
pub open spec fn in_one_place<C>(state: RouterView<C>) -> bool {
    &&& forall|i: int, j: int|
        0 <= i < j < state.queue.len() && (#[trigger] state.queue[i]).command.id is Some
            ==> state.queue[i].command.id != (#[trigger] state.queue[j]).command.id
    &&& forall|i: int, id: u128|
        0 <= i < state.queue.len() && (#[trigger] state.queue[i]).command.id == Some(id)
            ==> !#[trigger] state.inflight.contains_key(id)
}

/// Whether nothing of a command is in the state.
pub open spec fn unknown_id<C>(state: RouterView<C>, id: u128) -> bool {
    &&& !state.inflight.contains_key(id)
    &&& forall|i: int| 0 <= i < state.queue.len() ==> (#[trigger] state.queue[i]).command.id != Some(id)
}

/// A command under a new id is in one place only.
pub proof fn queueing_keeps_commands_apart<C>(
    state: RouterView<C>,
    command: ToolArguments,
    id: u128,
    channel: C,
)
    requires
        in_one_place(state),
        command.id == Some(id),
        unknown_id(state, id),
    ensures
        in_one_place(state.queued(command, id, channel)),
{
    let after = state.queued(command, id, channel);
    assert forall|i: int, j: int|
        0 <= i < j < after.queue.len() && (#[trigger] after.queue[i]).command.id is Some implies after.queue[i].command.id
        != (#[trigger] after.queue[j]).command.id by {
        assert(after.queue[i] == state.queue[i]);
        if j < state.queue.len() {
            assert(after.queue[j] == state.queue[j]);
        }
    }
    assert forall|i: int, other: u128|
        0 <= i < after.queue.len() && (#[trigger] after.queue[i]).command.id == Some(other)
            implies !#[trigger] after.inflight.contains_key(other) by {
        if i < state.queue.len() {
            assert(after.queue[i] == state.queue[i]);
        }
    }
}

/// Handing a command out moves it from the queue into flight.
pub proof fn handing_out_keeps_commands_apart<C>(state: RouterView<C>, at: int, now: u64)
    requires
        in_one_place(state),
        0 <= at < state.queue.len(),
    ensures
        in_one_place(state.handed_out(at, now)),
{
    let after = state.handed_out(at, now);
    assert forall|i: int, j: int|
        0 <= i < j < after.queue.len() && (#[trigger] after.queue[i]).command.id is Some implies after.queue[i].command.id
        != (#[trigger] after.queue[j]).command.id by {
        let a = if i < at { i } else { i + 1 };
        let b = if j < at { j } else { j + 1 };
        assert(after.queue[i] == state.queue[a] && after.queue[j] == state.queue[b]);
    }
    assert forall|i: int, other: u128|
        0 <= i < after.queue.len() && (#[trigger] after.queue[i]).command.id == Some(other)
            implies !#[trigger] after.inflight.contains_key(other) by {
        let a = if i < at { i } else { i + 1 };
        assert(after.queue[i] == state.queue[a]);
        assert(!state.inflight.contains_key(other));
        if a < at {
            assert(state.queue[a].command.id != state.queue[at].command.id);
        } else {
            assert(state.queue[at].command.id is Some ==> state.queue[at].command.id
                != state.queue[a].command.id);
        }
    }
}

/// Giving up deliveries moves commands from flight back into the queue.
pub proof fn sweeping_keeps_commands_apart<C>(state: RouterView<C>, order: Seq<u128>)
    requires
        state.valid(),
        in_one_place(state),
        order.no_duplicates(),
        forall|id: u128| #[trigger] order.contains(id) ==> state.inflight.contains_key(id),
    ensures
        in_one_place(state.swept(order)),
    decreases order.len(),
{
    if order.len() > 0 {
        let shorter = order.drop_last();
        let id = order.last();
        assert(order[order.len() - 1] == id);
        assert(order.contains(id));
        assert(shorter.no_duplicates());
        assert forall|k: u128| #[trigger] shorter.contains(k) implies state.inflight.contains_key(k) by {
            let i = choose|i: int| 0 <= i < shorter.len() && shorter[i] == k;
            assert(order[i] == k);
            assert(order.contains(k));
        }
        sweeping_keeps_commands_apart(state, shorter);
        assert(!shorter.contains(id)) by {
            if shorter.contains(id) {
                let i = choose|i: int| 0 <= i < shorter.len() && shorter[i] == id;
                assert(order[i] == order[order.len() - 1]);
            }
        }
        lemma_swept_others(state, shorter, id);
        let before = state.swept(shorter);
        let after = state.swept(order);
        let task = before.inflight[id].task;
        assert(before.inflight.contains_key(id));
        assert(inflight_ok(state.inflight[id].task, id));
        assert(task.command.id == Some(id));
        if task.attempts < MAX_DELIVERY_ATTEMPTS {
            assert forall|i: int, j: int|
                0 <= i < j < after.queue.len() && (#[trigger] after.queue[i]).command.id is Some
                    implies after.queue[i].command.id != (#[trigger] after.queue[j]).command.id by {
                assert(after.queue[j] == before.queue[j - 1]);
                if i > 0 {
                    assert(after.queue[i] == before.queue[i - 1]);
                }
            }
            assert forall|i: int, other: u128|
                0 <= i < after.queue.len() && (#[trigger] after.queue[i]).command.id == Some(other)
                    implies !#[trigger] after.inflight.contains_key(other) by {
                if i > 0 {
                    assert(after.queue[i] == before.queue[i - 1]);
                    assert(!before.inflight.contains_key(other));
                }
            }
        } else {
            assert(after.queue == before.queue);
            assert forall|i: int, other: u128|
                0 <= i < after.queue.len() && (#[trigger] after.queue[i]).command.id == Some(other)
                    implies !#[trigger] after.inflight.contains_key(other) by {
                assert(before.queue[i].command.id == Some(other));
                assert(!before.inflight.contains_key(other));
            }
        }
    }
}

/// Taking the first command out of the queue, to forward it, keeps the others where they are, and
/// leaves nothing of that command.
pub proof fn forwarding_keeps_commands_apart<C>(state: RouterView<C>)
    requires
        in_one_place(state),
        state.queue.len() > 0,
    ensures
        ({
            let after = RouterView { queue: state.queue.skip(1), ..state };
            &&& in_one_place(after)
            &&& state.queue[0].command.id matches Some(id) ==> unknown_id(after, id)
        }),
{
    let after = RouterView { queue: state.queue.skip(1), ..state };
    assert forall|i: int, j: int|
        0 <= i < j < after.queue.len() && (#[trigger] after.queue[i]).command.id is Some implies after.queue[i].command.id
        != (#[trigger] after.queue[j]).command.id by {
        assert(after.queue[i] == state.queue[i + 1] && after.queue[j] == state.queue[j + 1]);
    }
    assert forall|i: int, other: u128|
        0 <= i < after.queue.len() && (#[trigger] after.queue[i]).command.id == Some(other)
            implies !#[trigger] after.inflight.contains_key(other) by {
        assert(after.queue[i] == state.queue[i + 1]);
    }
    if state.queue[0].command.id is Some {
        let id = state.queue[0].command.id->0;
        assert(!state.inflight.contains_key(id));
        assert forall|i: int| 0 <= i < after.queue.len() implies (#[trigger] after.queue[i]).command.id
            != Some(id) by {
            assert(after.queue[i] == state.queue[i + 1]);
        }
    }
}

/// Putting a command back that could not be forwarded keeps it in one place, where nothing else of it
/// came up in the meantime.
pub proof fn putting_back_keeps_commands_apart<C>(state: RouterView<C>, entry: QueuedTask)
    requires
        in_one_place(state),
        entry.command.id matches Some(id) ==> unknown_id(state, id),
    ensures
        in_one_place(RouterView { queue: seq![entry] + state.queue, ..state }),
{
    let after = RouterView { queue: seq![entry] + state.queue, ..state };
    assert forall|i: int, j: int|
        0 <= i < j < after.queue.len() && (#[trigger] after.queue[i]).command.id is Some implies after.queue[i].command.id
        != (#[trigger] after.queue[j]).command.id by {
        assert(after.queue[j] == state.queue[j - 1]);
        if i > 0 {
            assert(after.queue[i] == state.queue[i - 1]);
        }
    }
    assert forall|i: int, other: u128|
        0 <= i < after.queue.len() && (#[trigger] after.queue[i]).command.id == Some(other)
            implies !#[trigger] after.inflight.contains_key(other) by {
        if i > 0 {
            assert(after.queue[i] == state.queue[i - 1]);
        }
    }
}

/// Handing a result to a caller keeps every command where it is.
pub proof fn answering_keeps_commands_apart<C>(state: RouterView<C>, id: u128)
    requires
        in_one_place(state),
    ensures
        in_one_place(state.answered(id)),
{
}

/// Removing a command keeps the others where they are.
pub proof fn forgetting_keeps_commands_apart<C>(state: RouterView<C>, id: u128)
    requires
        in_one_place(state),
    ensures
        in_one_place(state.forgotten(id)),
        in_one_place(state.acked(id)),
{
    lemma_without_apart(state.queue, id);
    lemma_without(state.queue, id);
    let queue = without(state.queue, id);
    assert forall|i: int, other: u128|
        0 <= i < queue.len() && (#[trigger] queue[i]).command.id == Some(other) implies !#[trigger] state.inflight.contains_key(
        other,
    ) by {
        assert(state.queue.contains(queue[i]));
        let k = choose|k: int| 0 <= k < state.queue.len() && state.queue[k] == queue[i];
        assert(state.queue[k].command.id == Some(other));
    }
}

proof fn lemma_without_apart(queue: Seq<QueuedTask>, id: u128)
    requires
        forall|i: int, j: int|
            0 <= i < j < queue.len() && (#[trigger] queue[i]).command.id is Some ==> queue[i].command.id
                != (#[trigger] queue[j]).command.id,
    ensures
        ({
            let left = without(queue, id);
            forall|i: int, j: int|
                0 <= i < j < left.len() && (#[trigger] left[i]).command.id is Some ==> left[i].command.id
                    != (#[trigger] left[j]).command.id
        }),
    decreases queue.len(),
{
    reveal(Seq::filter);
    if queue.len() > 0 {
        let shorter = queue.drop_last();
        let last = queue.last();
        assert(last == queue[queue.len() - 1]);
        lemma_without_apart(shorter, id);
        lemma_without(shorter, id);
        let left = without(queue, id);
        let fewer = without(shorter, id);
        assert forall|i: int, j: int|
            0 <= i < j < left.len() && (#[trigger] left[i]).command.id is Some implies left[i].command.id != (
        #[trigger] left[j]).command.id by {
            assert(left[i] == fewer[i]);
            if j < fewer.len() {
                assert(left[j] == fewer[j]);
            } else {
                assert(left[j] == last);
                assert(shorter.contains(fewer[i]));
                let k = choose|k: int| 0 <= k < shorter.len() && shorter[k] == fewer[i];
                assert(queue[k] == fewer[i]);
            }
        }
    }
}

/// Once a command is acknowledged it is neither queued nor in flight: it is not delivered again.
pub proof fn acknowledged_commands_are_not_redelivered<C>(state: RouterView<C>, id: u128)
    requires
        in_one_place(state),
    ensures
        unknown_id(state.acked(id), id),
{
    lemma_without(state.queue, id);
    if state.inflight.contains_key(id) {
        assert forall|i: int| 0 <= i < state.queue.len() implies (#[trigger] state.queue[i]).command.id
            != Some(id) by {}
    }
}

/// An acknowledgement that comes after its delivery was given up as lost takes the command out of
/// the queue again, so that it does not run twice.
pub proof fn late_acknowledgement_drops_the_duplicate<C>(
    state: RouterView<C>,
    now: u64,
    order: Seq<u128>,
    id: u128,
)
    requires
        state.valid(),
        state.lists_expired(now, order),
        state.expired(id, now),
    ensures
        unknown_id(state.swept(order).acked(id), id),
{
    lost_deliveries_are_retried(state, now, order, id);
    lemma_without(state.swept(order).queue, id);
}

/// A forgotten command leaves no trace, and what belongs to other commands stays as it is.
pub proof fn forgotten_commands_leave_no_trace<C>(state: RouterView<C>, id: u128, other: u128)
    ensures
        ({
            let after = state.forgotten(id);
            &&& unknown_id(after, id)
            &&& !after.outputs.contains_key(id)
            &&& other != id ==> {
                &&& after.inflight.contains_key(other) == state.inflight.contains_key(other)
                &&& state.inflight.contains_key(other) ==> after.inflight[other] == state.inflight[other]
                &&& after.outputs.contains_key(other) == state.outputs.contains_key(other)
                &&& state.outputs.contains_key(other) ==> after.outputs[other] == state.outputs[other]
            }
            &&& forall|task: QueuedTask|
                state.queue.contains(task) && task.command.id != Some(id) ==> #[trigger] after.queue.contains(task)
            &&& after.instances == state.instances
        }),
{
    lemma_without(state.queue, id);
}

/// Whether a caller waits for a command's result on this channel.
pub open spec fn waits<C>(state: RouterView<C>, id: u128, channel: C) -> bool {
    state.outputs.contains_key(id) && state.outputs[id] == channel
}

/// From the moment a command is queued its caller waits, and nothing but an answer to this command,
/// or the end of its deliveries, ends the wait: not a poll, a delivery, an acknowledgement or a lost
/// delivery, nor what becomes of other commands. So the answer reaches the caller.
pub proof fn callers_wait_for_their_answer<C>(
    state: RouterView<C>,
    id: u128,
    channel: C,
    other_command: ToolArguments,
    other: u128,
    other_channel: C,
    at: int,
    acked: u128,
    instance: Seq<char>,
    role: TargetRole,
    now: u64,
)
    requires
        other != id,
    ensures
        waits(state.queued(other_command, id, channel), id, channel),
        waits(state, id, channel) ==> {
            &&& waits(state.noted(instance, role, now), id, channel)
            &&& waits(state.handed_out(at, now), id, channel)
            &&& waits(state.acked(acked), id, channel)
            &&& waits(state.queued(other_command, other, other_channel), id, channel)
            &&& waits(state.forgotten(other), id, channel)
            &&& waits(state.answered(other), id, channel)
        },
{
}

/// A caller waits on while lost deliveries are swept, unless its own command was delivered too often.
pub proof fn callers_wait_through_sweeps<C>(
    state: RouterView<C>,
    now: u64,
    order: Seq<u128>,
    id: u128,
    channel: C,
)
    requires
        state.valid(),
        state.lists_expired(now, order),
        waits(state, id, channel),
    ensures
        waits(state.swept(order), id, channel) <==> !(state.expired(id, now)
            && state.inflight[id].task.attempts >= MAX_DELIVERY_ATTEMPTS),
{
    if state.expired(id, now) {
        lost_deliveries_are_retried(state, now, order, id);
    } else {
        assert(!order.contains(id));
        lemma_swept_others(state, order, id);
    }
}

/// A command that is queued for a poller without other commands is what the next poll delivers.
pub proof fn next_poll_delivers<C>(
    state: RouterView<C>,
    command: ToolArguments,
    id: u128,
    channel: C,
    role: TargetRole,
    instance: Seq<char>,
)
    requires
        next_for(state.queue, role, instance) is None,
        addressed(QueuedTask { command, attempts: 0 }, role, instance),
    ensures
        ({
            let after = state.queued(command, id, channel);
            &&& next_for(after.queue, role, instance) == Some(state.queue.len() as int)
            &&& after.queue[state.queue.len() as int].command == command
        }),
{
    let after = state.queued(command, id, channel);
    lemma_next_for(state.queue, role, instance);
    lemma_next_for(after.queue, role, instance);
    let end = state.queue.len() as int;
    assert(addressed(after.queue[end], role, instance));
    let found = next_for(after.queue, role, instance);
    if found is Some && found->0 < end {
        assert(after.queue[found->0] == state.queue[found->0]);
    }
}

/// A command that could not be forwarded because the port owner is gone is back where it was: the
/// queue survives the takeover of the port.
pub proof fn takeover_keeps_the_queue<C>(state: RouterView<C>)
    requires
        state.queue.len() > 0,
    ensures
        ({
            let taken = RouterView { queue: state.queue.skip(1), ..state };
            RouterView { queue: seq![state.queue[0]] + taken.queue, ..taken } == state
        }),
{
    assert(seq![state.queue[0]] + state.queue.skip(1) =~= state.queue);
}

/// A held poll looks again before its time is up, and often enough for the deliveries to be watched.
pub proof fn held_polls_wake_in_time(deadline: u64, now: u64)
    requires
        now < deadline,
    ensures
        0 < poll_pause(deadline, now) <= INFLIGHT_SWEEP_INTERVAL,
        now + poll_pause(deadline, now) <= deadline,
{
}

/// A forwarding server waits longer than the port owner, which may wait for a DataModel and then for
/// the command; so it is the owner's answer that counts.
pub proof fn forwarding_outlasts_the_owner(args: ToolArgumentValues)
    ensures
        ROLE_WAIT_TIMEOUT + execution_timeout_spec(args) < execution_timeout_spec(args) + FORWARD_GRACE,
{
}

/// No Studio mode sends a command to the legacy role.
pub proof fn roles_are_never_legacy(
    instances: Map<Seq<char>, StudioInstance>,
    mode: Seq<char>,
    instance: Option<Seq<char>>,
    run_server_role: TargetRole,
    now: u64,
)
    requires
        run_server_role != TargetRole::Legacy,
    ensures
        play_aware_role_spec(mode, run_server_role) != TargetRole::Legacy,
        rendering_role_spec(instances, mode, instance, now) != TargetRole::Legacy,
{
}

} // verus!
