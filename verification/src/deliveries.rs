//! How often and how fast one command is delivered, over any run of the router in which the plugin
//! never acknowledges or answers it.

use crate::commands::ToolArguments;
use crate::polling::{poll_follows, PollStep};
use crate::role::TargetRole;
use crate::state::{
    inflight_ok, lemma_filter_one, lemma_filter_remove, lemma_next_for, lemma_swept_others,
    lemma_swept_valid, lemma_without, next_for, queued_ok, without, Delivery, QueuedTask, RouterView,
};
use crate::timing::{elapsed_spec, ACK_TIMEOUT, MAX_DELIVERY_ATTEMPTS};
use vstd::prelude::*;

verus! {

/// Something that happens to the router.
#[verifier::reject_recursive_types(C)]
pub enum RouterEvent<C> {
    /// A poll looks for a command; lost deliveries are taken in this order.
    Poll {
        role: TargetRole,
        instance: Seq<char>,
        deadline: u64,
        now: u64,
        order: Seq<u128>,
        step: (PollStep, Vec<Delivery<C>>),
    },
    /// A command is queued.
    Queue { command: ToolArguments, id: u128, channel: C },
    /// The plugin acknowledges a command.
    Acknowledge { id: u128 },
    /// A command is answered or given up by its caller.
    Forget { id: u128 },
    /// A caller's channel is taken.
    Answer { id: u128 },
}

/// Whether an event leads from one state to another.
pub open spec fn leads<C>(before: RouterView<C>, event: RouterEvent<C>, after: RouterView<C>) -> bool {
    match event {
        RouterEvent::Poll { role, instance, deadline, now, order, step } => poll_follows(
            before.noted(instance, role, now),
            order,
            role,
            instance,
            deadline,
            now,
            step,
            after,
        ),
        RouterEvent::Queue { command, id, channel } => {
            &&& command.target != TargetRole::Legacy
            &&& after == before.queued(command, id, channel)
        },
        RouterEvent::Acknowledge { id } => after == before.acked(id),
        RouterEvent::Forget { id } => after == before.forgotten(id),
        RouterEvent::Answer { id } => after == before.answered(id),
    }
}

/// Whether an event delivers a command.
pub open spec fn delivers_command<C>(event: RouterEvent<C>, id: u128) -> bool {
    event matches RouterEvent::Poll { step, .. } && step.0 matches PollStep::Deliver { command }
        && command.id == Some(id)
}

/// Whether an event queues a command again, acknowledges it, or removes it.
pub open spec fn is_about<C>(event: RouterEvent<C>, id: u128) -> bool {
    match event {
        RouterEvent::Poll { .. } => false,
        RouterEvent::Queue { command, .. } => command.id == Some(id),
        RouterEvent::Acknowledge { id: other } => other == id,
        RouterEvent::Forget { id: other } => other == id,
        RouterEvent::Answer { .. } => false,
    }
}

/// When an event happens, where that matters.
pub open spec fn event_time<C>(event: RouterEvent<C>) -> Option<u64> {
    match event {
        RouterEvent::Poll { now, .. } => Some(now),
        _ => None,
    }
}

/// Whether events lead through states, with a clock that does not go back.
pub open spec fn is_run<C>(states: Seq<RouterView<C>>, events: Seq<RouterEvent<C>>) -> bool {
    &&& states.len() == events.len() + 1
    &&& forall|i: int| 0 <= i < events.len() ==> leads(states[i], #[trigger] events[i], states[i + 1])
    &&& forall|i: int, j: int|
        0 <= i < j < events.len() && event_time(#[trigger] events[i]) is Some && event_time(
            #[trigger] events[j],
        ) is Some ==> event_time(events[i])->0 <= event_time(events[j])->0
}

/// The queued commands under an id.
pub open spec fn copies(queue: Seq<QueuedTask>, id: u128) -> Seq<QueuedTask> {
    queue.filter(|task: QueuedTask| task.command.id == Some(id))
}

/// Whether a command was queued once and not yet delivered.
pub open spec fn just_queued<C>(state: RouterView<C>, id: u128) -> bool {
    &&& copies(state.queue, id).len() == 1
    &&& copies(state.queue, id)[0].attempts == 0
    &&& !state.inflight.contains_key(id)
}

/// Whether events are a run from a state in which the command was just queued, and none of them is
/// about the command: it is never acknowledged or answered.
pub open spec fn is_unanswered_run<C>(
    states: Seq<RouterView<C>>,
    events: Seq<RouterEvent<C>>,
    id: u128,
) -> bool {
    &&& is_run(states, events)
    &&& states[0].valid()
    &&& just_queued(states[0], id)
    &&& forall|i: int| 0 <= i < events.len() ==> !is_about(#[trigger] events[i], id)
}

/// How often events deliver a command.
pub open spec fn deliveries<C>(events: Seq<RouterEvent<C>>, id: u128) -> nat
    decreases events.len(),
{
    if events.len() == 0 {
        0
    } else {
        deliveries(events.drop_last(), id) + (if delivers_command(events.last(), id) {
            1nat
        } else {
            0nat
        })
    }
}

/// Whether a command is in one place at most, and counts as delivered this often.
pub open spec fn stands<C>(state: RouterView<C>, id: u128, count: nat) -> bool {
    &&& copies(state.queue, id).len() <= 1
    &&& copies(state.queue, id).len() == 1 ==> copies(state.queue, id)[0].attempts == count
        && !state.inflight.contains_key(id)
    &&& state.inflight.contains_key(id) ==> state.inflight[id].task.attempts == count
    &&& count <= MAX_DELIVERY_ATTEMPTS
}

proof fn lemma_copies_front(task: QueuedTask, queue: Seq<QueuedTask>, id: u128)
    ensures
        copies(seq![task] + queue, id) == (if task.command.id == Some(id) {
            seq![task]
        } else {
            Seq::<QueuedTask>::empty()
        }) + copies(queue, id),
{
    let keep = |task: QueuedTask| task.command.id == Some(id);
    Seq::filter_distributes_over_add(seq![task], queue, keep);
    lemma_filter_one(task, keep);
}

proof fn lemma_copies_without(queue: Seq<QueuedTask>, other: u128, id: u128)
    requires
        other != id,
    ensures
        copies(without(queue, other), id) == copies(queue, id),
    decreases queue.len(),
{
    reveal(Seq::filter);
    if queue.len() > 0 {
        let shorter = queue.drop_last();
        lemma_copies_without(shorter, other, id);
        if queue.last().command.id != Some(other) {
            assert(without(queue, other) == without(shorter, other).push(queue.last()));
            assert(without(shorter, other).push(queue.last()).drop_last() =~= without(shorter, other));
        } else {
            assert(without(queue, other) == without(shorter, other));
        }
    }
}

proof fn lemma_swept_copies<C>(state: RouterView<C>, order: Seq<u128>, id: u128)
    requires
        state.valid(),
        order.no_duplicates(),
        forall|k: u128| #[trigger] order.contains(k) ==> state.inflight.contains_key(k),
    ensures
        copies(state.swept(order).queue, id) == (if order.contains(id)
            && state.inflight[id].task.attempts < MAX_DELIVERY_ATTEMPTS {
            seq![state.inflight[id].task]
        } else {
            Seq::<QueuedTask>::empty()
        }) + copies(state.queue, id),
        order.contains(id) ==> !state.swept(order).inflight.contains_key(id),
    decreases order.len(),
{
    let nothing = Seq::<QueuedTask>::empty();
    assert(nothing + copies(state.queue, id) =~= copies(state.queue, id));
    if order.len() > 0 {
        let shorter = order.drop_last();
        let last = order.last();
        assert(order[order.len() - 1] == last);
        assert(order.contains(last));
        assert(shorter.no_duplicates());
        assert forall|k: u128| #[trigger] shorter.contains(k) implies state.inflight.contains_key(k) by {
            let i = choose|i: int| 0 <= i < shorter.len() && shorter[i] == k;
            assert(order[i] == k);
            assert(order.contains(k));
        }
        lemma_swept_copies(state, shorter, id);
        assert(!shorter.contains(last)) by {
            if shorter.contains(last) {
                let i = choose|i: int| 0 <= i < shorter.len() && shorter[i] == last;
                assert(order[i] == order[order.len() - 1]);
            }
        }
        lemma_swept_others(state, shorter, last);
        let before = state.swept(shorter);
        let task = before.inflight[last].task;
        assert(inflight_ok(state.inflight[last].task, last));
        if order.contains(id) && id != last {
            let i = choose|i: int| 0 <= i < order.len() && order[i] == id;
            assert(shorter[i] == id);
        }
        if shorter.contains(id) {
            let i = choose|i: int| 0 <= i < shorter.len() && shorter[i] == id;
            assert(order[i] == id);
        }
        if task.attempts < MAX_DELIVERY_ATTEMPTS {
            lemma_copies_front(task, before.queue, id);
            assert(nothing + copies(before.queue, id) =~= copies(before.queue, id));
        }
    }
}

proof fn lemma_handed_out_valid<C>(state: RouterView<C>, at: int, now: u64)
    requires
        state.valid(),
        0 <= at < state.queue.len(),
    ensures
        state.handed_out(at, now).valid(),
{
    let after = state.handed_out(at, now);
    assert(queued_ok(state.queue[at]));
    assert forall|i: int| 0 <= i < after.queue.len() implies queued_ok(#[trigger] after.queue[i]) by {
        assert(after.queue[i] == state.queue[if i < at {
            i
        } else {
            i + 1
        }]);
    }
    assert forall|id: u128| #[trigger] after.inflight.contains_key(id) implies inflight_ok(
        after.inflight[id].task,
        id,
    ) by {
        if state.queue[at].command.id != Some(id) {
            assert(state.inflight.contains_key(id));
        }
    }
}

/// Whether a command was where a poll at this time can find it: in the queue, or in flight for too
/// long.
spec fn is_due<C>(state: RouterView<C>, id: u128, now: u64) -> bool {
    ||| copies(state.queue, id).len() == 1
    ||| state.inflight.contains_key(id) && elapsed_spec(now, state.inflight[id].delivered_at) >= ACK_TIMEOUT
}

/// What one event makes of a command that it is not about.
spec fn moves<C>(
    before: RouterView<C>,
    event: RouterEvent<C>,
    after: RouterView<C>,
    id: u128,
) -> bool {
    if delivers_command(event, id) {
        &&& event_time(event) matches Some(now) && is_due(before, id, now)
            && after.inflight.contains_key(id) && after.inflight[id].delivered_at == now
        &&& copies(after.queue, id).len() == 0
    } else {
        &&& after.inflight.contains_key(id) ==> before.inflight.contains_key(id) && after.inflight[id]
            == before.inflight[id]
        &&& copies(after.queue, id).len() == 1 ==> copies(before.queue, id).len() == 1 || (event_time(
            event,
        ) matches Some(now) && is_due(before, id, now))
    }
}

proof fn lemma_sweep<C>(state: RouterView<C>, now: u64, order: Seq<u128>, id: u128, count: nat)
    requires
        state.valid(),
        state.lists_expired(now, order),
        stands(state, id, count),
    ensures
        ({
            let swept = state.swept(order);
            &&& swept.valid()
            &&& stands(swept, id, count)
            &&& swept.inflight.contains_key(id) ==> state.inflight.contains_key(id)
                && swept.inflight[id] == state.inflight[id]
            &&& copies(swept.queue, id).len() == 1 ==> is_due(state, id, now)
        }),
{
    assert forall|k: u128| #[trigger] order.contains(k) implies state.inflight.contains_key(k) by {
        assert(state.expired(k, now));
    }
    lemma_swept_valid(state, order);
    lemma_swept_copies(state, order, id);
    let nothing = Seq::<QueuedTask>::empty();
    if order.contains(id) {
        assert(state.expired(id, now));
        assert(copies(state.queue, id) =~= nothing);
        let task = state.inflight[id].task;
        assert(seq![task] + nothing =~= seq![task]);
        assert(nothing + nothing =~= nothing);
    } else {
        lemma_swept_others(state, order, id);
        assert(nothing + copies(state.queue, id) =~= copies(state.queue, id));
    }
}

proof fn lemma_hand_out<C>(state: RouterView<C>, at: int, now: u64, id: u128, count: nat)
    requires
        state.valid(),
        stands(state, id, count),
        0 <= at < state.queue.len(),
    ensures
        ({
            let after = state.handed_out(at, now);
            &&& after.valid()
            &&& if state.queue[at].command.id == Some(id) {
                &&& copies(state.queue, id).len() == 1
                &&& copies(after.queue, id).len() == 0
                &&& after.inflight.contains_key(id)
                &&& after.inflight[id].delivered_at == now
                &&& stands(after, id, count + 1)
            } else {
                &&& copies(after.queue, id) == copies(state.queue, id)
                &&& after.inflight.contains_key(id) == state.inflight.contains_key(id)
                &&& state.inflight.contains_key(id) ==> after.inflight[id] == state.inflight[id]
            }
        }),
{
    let task = state.queue[at];
    let after = state.handed_out(at, now);
    lemma_handed_out_valid(state, at, now);
    lemma_filter_remove(state.queue, at, |task: QueuedTask| task.command.id == Some(id));
    assert(queued_ok(task));
    let first = copies(state.queue.take(at), id);
    let rest = copies(state.queue.skip(at + 1), id);
    assert(copies(after.queue, id) == first + rest);
    if task.command.id == Some(id) {
        let mine = copies(state.queue, id);
        assert(mine == first + seq![task] + rest);
        assert(mine[first.len() as int] == task);
        assert(mine.len() == first.len() + 1 + rest.len());
    }
}

proof fn lemma_poll<C>(before: RouterView<C>, event: RouterEvent<C>, after: RouterView<C>, id: u128, count: nat)
    requires
        event is Poll,
        leads(before, event, after),
        before.valid(),
        stands(before, id, count),
    ensures
        after.valid(),
        stands(after, id, count + if delivers_command(event, id) {
            1nat
        } else {
            0nat
        }),
        moves(before, event, after, id),
{
    if let RouterEvent::Poll { role, instance, deadline, now, order, step } = event {
        let noted = before.noted(instance, role, now);
        let swept = noted.swept(order);
        assert(noted.queue == before.queue && noted.inflight == before.inflight);
        lemma_sweep(noted, now, order, id, count);
        lemma_next_for(swept.queue, role, instance);
        if let Some(at) = next_for(swept.queue, role, instance) {
            lemma_hand_out(swept, at, now, id, count);
        }
    }
}

proof fn lemma_event<C>(before: RouterView<C>, event: RouterEvent<C>, after: RouterView<C>, id: u128, count: nat)
    requires
        leads(before, event, after),
        !is_about(event, id),
        before.valid(),
        stands(before, id, count),
    ensures
        after.valid(),
        stands(after, id, count + if delivers_command(event, id) {
            1nat
        } else {
            0nat
        }),
        moves(before, event, after, id),
{
    match event {
        RouterEvent::Poll { .. } => {
            lemma_poll(before, event, after, id, count);
        },
        RouterEvent::Queue { command, id: _, channel } => {
            let task = QueuedTask { command, attempts: 0 };
            let keep = |task: QueuedTask| task.command.id == Some(id);
            assert(after.queue =~= before.queue + seq![task]);
            Seq::filter_distributes_over_add(before.queue, seq![task], keep);
            lemma_filter_one(task, keep);
            assert(copies(after.queue, id) =~= copies(before.queue, id));
            assert forall|i: int| 0 <= i < after.queue.len() implies queued_ok(#[trigger] after.queue[i]) by {
                if i < before.queue.len() {
                    assert(after.queue[i] == before.queue[i]);
                }
            }
        },
        RouterEvent::Acknowledge { id: other } => {
            lemma_copies_without(before.queue, other, id);
            lemma_fewer_valid(before, after, other);
        },
        RouterEvent::Forget { id: other } => {
            lemma_copies_without(before.queue, other, id);
            lemma_fewer_valid(before, after, other);
        },
        RouterEvent::Answer { id: _ } => {
            assert(after.queue == before.queue && after.inflight == before.inflight);
        },
    }
}

proof fn lemma_fewer_valid<C>(before: RouterView<C>, after: RouterView<C>, id: u128)
    requires
        before.valid(),
        after.queue == before.queue || after.queue == without(before.queue, id),
        after.inflight == before.inflight || after.inflight == before.inflight.remove(id),
    ensures
        after.valid(),
{
    lemma_without(before.queue, id);
    assert forall|i: int| 0 <= i < after.queue.len() implies queued_ok(#[trigger] after.queue[i]) by {
        if after.queue == without(before.queue, id) {
            assert(before.queue.contains(after.queue[i]));
            let k = choose|k: int| 0 <= k < before.queue.len() && before.queue[k] == after.queue[i];
            assert(queued_ok(before.queue[k]));
        }
    }
    assert forall|k: u128| #[trigger] after.inflight.contains_key(k) implies inflight_ok(
        after.inflight[k].task,
        k,
    ) by {
        assert(before.inflight.contains_key(k));
    }
}

proof fn lemma_run<C>(states: Seq<RouterView<C>>, events: Seq<RouterEvent<C>>, id: u128, upto: int)
    requires
        is_unanswered_run(states, events, id),
        0 <= upto <= events.len(),
    ensures
        states[upto].valid(),
        stands(states[upto], id, deliveries(events.take(upto), id)),
    decreases upto,
{
    if upto > 0 {
        lemma_run(states, events, id, upto - 1);
        let event = events[upto - 1];
        assert(events.take(upto).drop_last() == events.take(upto - 1));
        assert(events.take(upto).last() == event);
        assert(leads(states[upto - 1], event, states[upto - 1 + 1]));
        lemma_event(
            states[upto - 1],
            event,
            states[upto],
            id,
            deliveries(events.take(upto - 1), id),
        );
    }
}

/// A command that is never acknowledged or answered is delivered at most five times, whatever else
/// happens; and once it was delivered five times, it is never delivered again.
pub proof fn unanswered_commands_are_delivered_five_times_at_most<C>(
    states: Seq<RouterView<C>>,
    events: Seq<RouterEvent<C>>,
    id: u128,
)
    requires
        is_unanswered_run(states, events, id),
    ensures
        deliveries(events, id) <= MAX_DELIVERY_ATTEMPTS,
        forall|upto: int, at: int|
            0 <= upto <= at < events.len() && #[trigger] deliveries(events.take(upto), id)
                == MAX_DELIVERY_ATTEMPTS ==> !delivers_command(#[trigger] events[at], id),
{
    lemma_run(states, events, id, events.len() as int);
    assert(events.take(events.len() as int) == events);
    assert forall|upto: int, at: int|
        0 <= upto <= at < events.len() && #[trigger] deliveries(events.take(upto), id)
            == MAX_DELIVERY_ATTEMPTS implies !delivers_command(#[trigger] events[at], id) by {
        lemma_more_deliveries(events, id, upto, at);
        lemma_run(states, events, id, at + 1);
        assert(events.take(at + 1).drop_last() == events.take(at));
        assert(events.take(at + 1).last() == events[at]);
    }
}

proof fn lemma_more_deliveries<C>(events: Seq<RouterEvent<C>>, id: u128, upto: int, later: int)
    requires
        0 <= upto <= later <= events.len(),
    ensures
        deliveries(events.take(upto), id) <= deliveries(events.take(later), id),
    decreases later - upto,
{
    if upto < later {
        lemma_more_deliveries(events, id, upto, later - 1);
        assert(events.take(later).drop_last() == events.take(later - 1));
    }
}

/// Whether an event before this position happened at or after a time.
spec fn has_passed<C>(events: Seq<RouterEvent<C>>, upto: int, time: int) -> bool {
    exists|m: int|
        0 <= m < upto && event_time(#[trigger] events[m]) is Some && event_time(events[m])->0 >= time
}

proof fn lemma_since<C>(
    states: Seq<RouterView<C>>,
    events: Seq<RouterEvent<C>>,
    id: u128,
    first: int,
    upto: int,
)
    requires
        is_unanswered_run(states, events, id),
        0 <= first < upto <= events.len(),
        delivers_command(events[first], id),
    ensures
        ({
            let time = event_time(events[first])->0;
            &&& states[upto].inflight.contains_key(id) ==> states[upto].inflight[id].delivered_at >= time
            &&& copies(states[upto].queue, id).len() == 1 ==> has_passed(events, upto, time + ACK_TIMEOUT)
        }),
    decreases upto,
{
    let time = event_time(events[first])->0;
    let event = events[upto - 1];
    let before = states[upto - 1];
    let after = states[upto];
    lemma_run(states, events, id, upto - 1);
    assert(leads(before, event, states[upto - 1 + 1]));
    lemma_event(before, event, after, id, deliveries(events.take(upto - 1), id));
    if upto - 1 > first {
        lemma_since(states, events, id, first, upto - 1);
        if copies(after.queue, id).len() == 1 {
            if copies(before.queue, id).len() == 1 {
                let m = choose|m: int|
                    0 <= m < upto - 1 && event_time(#[trigger] events[m]) is Some && event_time(events[m])->0
                        >= time + ACK_TIMEOUT;
                assert(event_time(events[m])->0 >= time + ACK_TIMEOUT);
            } else {
                assert(event_time(events[upto - 1])->0 >= time + ACK_TIMEOUT);
            }
        }
    }
}

/// Two deliveries of a command that is never acknowledged or answered are at least three seconds
/// apart.
pub proof fn repeated_deliveries_are_seconds_apart<C>(
    states: Seq<RouterView<C>>,
    events: Seq<RouterEvent<C>>,
    id: u128,
    first: int,
    second: int,
)
    requires
        is_unanswered_run(states, events, id),
        0 <= first < second < events.len(),
        delivers_command(events[first], id),
        delivers_command(events[second], id),
    ensures
        event_time(events[first])->0 + ACK_TIMEOUT <= event_time(events[second])->0,
{
    let time = event_time(events[first])->0;
    lemma_since(states, events, id, first, second);
    lemma_run(states, events, id, second);
    assert(leads(states[second], events[second], states[second + 1]));
    lemma_event(
        states[second],
        events[second],
        states[second + 1],
        id,
        deliveries(events.take(second), id),
    );
    if copies(states[second].queue, id).len() == 1 {
        let m = choose|m: int|
            0 <= m < second && event_time(#[trigger] events[m]) is Some && event_time(events[m])->0 >= time
                + ACK_TIMEOUT;
        assert(event_time(events[m])->0 <= event_time(events[second])->0);
    }
}

} // verus!
