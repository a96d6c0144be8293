//! The router's state: commands waiting for their poller, commands handed out but not yet
//! acknowledged, callers waiting for a result, and the Studio windows that poll.

use crate::commands::{AckRequest, RunCommandResponse, ToolArguments};
use crate::instances::{
    connected_ids, is_connected, lists_connected, noted, role_is_fresh, InstanceTable,
    StudioInstance,
};
use crate::role::TargetRole;
use crate::text::{decimal, decimal_spec, reply_view, same_text, string_view, texts};
use crate::timing::{elapsed, elapsed_spec, ACK_TIMEOUT, MAX_DELIVERY_ATTEMPTS};
use std::collections::{HashMap, VecDeque};
use vstd::prelude::*;
use vstd::std_specs::iter::IteratorSpec;

verus! {

broadcast use vstd::std_specs::hash::group_hash_axioms;

/// A command in the queue, with the number of times it has been delivered.
#[derive(Debug)]
pub struct QueuedTask {
    pub command: ToolArguments,
    pub attempts: u32,
}

/// A delivered command that the plugin has not acknowledged.
#[derive(Debug)]
pub struct InflightTask {
    pub task: QueuedTask,
    pub delivered_at: u64,
}

/// A result on its way to the caller that waits for it.
pub struct Delivery<C> {
    pub channel: C,
    pub result: Result<String, String>,
}

/// Whether a delivery hands this result to this channel.
pub open spec fn delivers<C>(
    delivery: Delivery<C>,
    channel: C,
    result: Result<Seq<char>, Seq<char>>,
) -> bool {
    delivery.channel == channel && reply_view(delivery.result) == result
}

/// What the router's state means.
#[verifier::reject_recursive_types(C)]
pub struct RouterView<C> {
    /// The commands waiting for their poller, oldest first.
    pub queue: Seq<QueuedTask>,
    /// The commands handed out but not acknowledged, by id.
    pub inflight: Map<u128, InflightTask>,
    /// The channels of the callers that wait for a result, by the id of their command.
    pub outputs: Map<u128, C>,
    /// The known Studio windows, by instance id.
    pub instances: Map<Seq<char>, StudioInstance>,
}

/// Whether a queued command is for this role of this window.
pub open spec fn addressed(task: QueuedTask, role: TargetRole, instance: Seq<char>) -> bool {
    task.command.target == role && string_view(task.command.instance) == Some(instance)
}

/// The position of the oldest command for this role of this window.
pub open spec fn next_for(queue: Seq<QueuedTask>, role: TargetRole, instance: Seq<char>) -> Option<int>
    decreases queue.len(),
{
    if queue.len() == 0 {
        None
    } else if addressed(queue[0], role, instance) {
        Some(0)
    } else {
        match next_for(queue.skip(1), role, instance) {
            Some(at) => Some(at + 1),
            None => None,
        }
    }
}

/// A queue without the commands that have this id.
pub open spec fn without(queue: Seq<QueuedTask>, id: u128) -> Seq<QueuedTask> {
    queue.filter(|task: QueuedTask| task.command.id != Some(id))
}

/// What a caller is told when its command could not be delivered.
pub open spec fn undelivered_text(attempts: nat) -> Seq<char> {
    "Failed to deliver the command to Roblox Studio after "@ + decimal_spec(attempts)
        + " attempts. Studio may be frozen or the MCP plugin disconnected."@
}

impl<C> RouterView<C> {
    /// Whether every command in the state has been delivered a plausible number of times and is
    /// addressed to a current role, and every command in flight stands under its own id.
    pub open spec fn valid(self) -> bool {
        &&& forall|i: int| 0 <= i < self.queue.len() ==> queued_ok(#[trigger] self.queue[i])
        &&& forall|id: u128| #[trigger]
            self.inflight.contains_key(id) ==> inflight_ok(self.inflight[id].task, id)
    }

    /// The state after a poll has been noted.
    pub open spec fn noted(self, instance: Seq<char>, role: TargetRole, now: u64) -> Self {
        RouterView { instances: noted(self.instances, instance, role, now), ..self }
    }

    /// Whether a delivery was not acknowledged in time.
    pub open spec fn expired(self, id: u128, now: u64) -> bool {
        self.inflight.contains_key(id) && elapsed_spec(now, self.inflight[id].delivered_at)
            >= ACK_TIMEOUT
    }

    /// Whether a list holds the ids of all expired deliveries, each once.
    pub open spec fn lists_expired(self, now: u64, order: Seq<u128>) -> bool {
        &&& order.no_duplicates()
        &&& forall|id: u128| #[trigger] order.contains(id) <==> self.expired(id, now)
    }

    /// The state after one delivery has been given up as lost: the command goes back to the front
    /// of the queue, or is dropped after too many attempts.
    pub open spec fn swept_one(self, id: u128) -> Self {
        let task = self.inflight[id].task;
        if task.attempts >= MAX_DELIVERY_ATTEMPTS {
            RouterView {
                inflight: self.inflight.remove(id),
                outputs: self.outputs.remove(id),
                ..self
            }
        } else {
            RouterView {
                inflight: self.inflight.remove(id),
                queue: seq![task] + self.queue,
                ..self
            }
        }
    }

    /// The state after these deliveries have been given up as lost, one after the other.
    pub open spec fn swept(self, order: Seq<u128>) -> Self
        decreases order.len(),
    {
        if order.len() == 0 {
            self
        } else {
            self.swept(order.drop_last()).swept_one(order.last())
        }
    }

    /// The ids of a list whose callers are told that their command could not be delivered.
    pub open spec fn told(self, order: Seq<u128>) -> Seq<u128> {
        order.filter(
            |id: u128|
                self.inflight[id].task.attempts >= MAX_DELIVERY_ATTEMPTS && self.outputs.contains_key(id),
        )
    }

    /// The state after the command at this position has been handed to its poller.
    pub open spec fn handed_out(self, at: int, now: u64) -> Self {
        let task = self.queue[at];
        let bumped = QueuedTask { attempts: (task.attempts + 1) as u32, ..task };
        RouterView {
            queue: self.queue.remove(at),
            inflight: match task.command.id {
                Some(id) => self.inflight.insert(id, InflightTask { task: bumped, delivered_at: now }),
                None => self.inflight,
            },
            ..self
        }
    }

    /// The state after a command has been queued for a waiting caller.
    pub open spec fn queued(self, command: ToolArguments, id: u128, channel: C) -> Self {
        RouterView {
            queue: self.queue.push(QueuedTask { command, attempts: 0 }),
            outputs: self.outputs.insert(id, channel),
            ..self
        }
    }

    /// The state after an acknowledgement: the command is no longer in flight; where it was not in
    /// flight, it is no longer queued.
    pub open spec fn acked(self, id: u128) -> Self {
        if self.inflight.contains_key(id) {
            RouterView { inflight: self.inflight.remove(id), ..self }
        } else {
            RouterView { queue: without(self.queue, id), ..self }
        }
    }

    /// The state without any trace of a command.
    pub open spec fn forgotten(self, id: u128) -> Self {
        RouterView {
            queue: without(self.queue, id),
            inflight: self.inflight.remove(id),
            outputs: self.outputs.remove(id),
            ..self
        }
    }

    /// The state after a caller's channel has been taken.
    pub open spec fn answered(self, id: u128) -> Self {
        RouterView { outputs: self.outputs.remove(id), ..self }
    }
}

/// Whether a queued command may be delivered once more, to a current role.
pub open spec fn queued_ok(task: QueuedTask) -> bool {
    task.attempts < MAX_DELIVERY_ATTEMPTS && task.command.target != TargetRole::Legacy
}

/// Whether a command in flight stands under its own id, has been delivered, but not too often, and
/// went to a current role.
pub open spec fn inflight_ok(task: QueuedTask, id: u128) -> bool {
    &&& task.command.id == Some(id)
    &&& 1 <= task.attempts <= MAX_DELIVERY_ATTEMPTS
    &&& task.command.target != TargetRole::Legacy
}

/// The router's state. `C` is the channel by which a waiting caller receives its result.
#[verifier::reject_recursive_types(C)]
pub struct AppState<C> {
    process_queue: VecDeque<QueuedTask>,
    inflight: HashMap<u128, InflightTask>,
    output_map: HashMap<u128, C>,
    instances: InstanceTable,
}

impl<C> View for AppState<C> {
    type V = RouterView<C>;

    closed spec fn view(&self) -> RouterView<C> {
        RouterView {
            queue: self.process_queue@,
            inflight: self.inflight@,
            outputs: self.output_map@,
            instances: self.instances@,
        }
    }
}

impl<C> AppState<C> {
    /// The state's invariant.
    pub closed spec fn wf(&self) -> bool {
        self.instances.wf() && self@.valid()
    }

    /// What the invariant says of the state's meaning.
    pub proof fn wf_is_valid(&self)
        requires
            self.wf(),
        ensures
            self@.valid(),
    {
    }

    /// A router without commands, callers or windows.
    pub fn new() -> (state: Self)
        ensures
            state.wf(),
            state@ == (RouterView {
                queue: Seq::empty(),
                inflight: Map::empty(),
                outputs: Map::<u128, C>::empty(),
                instances: Map::empty(),
            }),
    {
        AppState {
            process_queue: VecDeque::new(),
            inflight: HashMap::new(),
            output_map: HashMap::new(),
            instances: InstanceTable::new(),
        }
    }

    /// Takes note of a poll.
    pub fn note_poll(&mut self, instance: &str, role: TargetRole, now: u64)
        requires
            old(self).wf(),
        ensures
            final(self).wf(),
            final(self)@ == old(self)@.noted(instance@, role, now),
    {
        proof {
            self.wf_is_valid();
        }
        self.instances.note_poll(instance, role, now);
        proof {
            assert(self@ == old(self)@.noted(instance@, role, now));
        }
    }

    /// Whether no Studio window is known. A server that forwards its commands never sees a poll.
    pub fn knows_no_instance(&self) -> (unknown: bool)
        requires
            self.wf(),
        ensures
            unknown == self@.instances.is_empty(),
    {
        self.instances.is_empty()
    }

    /// Whether a role of a window is connected.
    pub fn role_fresh(&self, instance: &str, role: TargetRole, now: u64) -> (fresh: bool)
        requires
            self.wf(),
        ensures
            fresh == role_is_fresh(self@.instances, instance@, role, now),
    {
        match self.instances.get(instance) {
            Some(found) => found.role_fresh(role, now),
            None => false,
        }
    }

    /// Whether a window is connected.
    pub fn any_role_fresh(&self, instance: &str, now: u64) -> (fresh: bool)
        requires
            self.wf(),
        ensures
            fresh == is_connected(self@.instances, instance@, now),
    {
        match self.instances.get(instance) {
            Some(found) => found.any_role_fresh(now),
            None => false,
        }
    }

    /// The ids of the connected windows in order.
    pub fn fresh_instance_ids(&self, now: u64) -> (ids: Vec<String>)
        requires
            self.wf(),
        ensures
            texts(ids@) == connected_ids(self@.instances, now),
            lists_connected(self@.instances, now, texts(ids@)),
    {
        self.instances.connected(now)
    }

    /// What is known of one window.
    pub fn known_instance(&self, instance: &str) -> (found: Option<StudioInstance>)
        requires
            self.wf(),
        ensures
            match found {
                Some(found) => self@.instances.contains_key(instance@) && self@.instances[instance@]
                    == found,
                None => !self@.instances.contains_key(instance@),
            },
    {
        self.instances.get(instance)
    }

    fn drop_queued(&mut self, id: u128)
        requires
            old(self).wf(),
        ensures
            final(self).wf(),
            final(self)@ == (RouterView { queue: without(old(self)@.queue, id), ..old(self)@ }),
    {
        let ghost all = self.process_queue@;
        let ghost keep = |task: QueuedTask| task.command.id != Some(id);
        let len: usize = self.process_queue.len();
        let mut done: usize = 0;
        proof {
            assert(all.skip(0) == all);
            assert(all.take(0).filter(keep) == Seq::<QueuedTask>::empty()) by {
                reveal(Seq::filter);
            }
            assert(all.skip(0) + Seq::<QueuedTask>::empty() == all);
        }
        while done < len
            invariant
                done <= len,
                len == all.len(),
                keep == (|task: QueuedTask| task.command.id != Some(id)),
                self.process_queue@ == all.skip(done as int) + all.take(done as int).filter(keep),
                self.inflight@ == old(self).inflight@,
                self.output_map@ == old(self).output_map@,
                self.instances == old(self).instances,
            decreases len - done,
        {
            let ghost kept = all.take(done as int).filter(keep);
            proof {
                assert(self.process_queue@[0] == all[done as int]);
            }
            if let Some(task) = self.process_queue.pop_front() {
                proof {
                    reveal(Seq::filter);
                    assert(all.take(done + 1).drop_last() == all.take(done as int));
                    assert(all.take(done + 1).last() == task);
                    assert(self.process_queue@ =~= all.skip(done + 1) + kept);
                }
                let stays = match task.command.id {
                    Some(own) => own != id,
                    None => true,
                };
                if stays {
                    self.process_queue.push_back(task);
                    proof {
                        assert(self.process_queue@ =~= all.skip(done + 1) + kept.push(task));
                    }
                }
            }
            done = done + 1;
        }
        proof {
            assert(all.take(len as int) == all);
            assert(all.skip(len as int) == Seq::<QueuedTask>::empty());
            assert(self.process_queue@ =~= without(all, id));
            lemma_without(all, id);
        }
    }
}

/// What is left of a queue was in it.
pub proof fn lemma_without(queue: Seq<QueuedTask>, id: u128)
    ensures
        forall|i: int|
            0 <= i < without(queue, id).len() ==> queue.contains(#[trigger] without(queue, id)[i])
                && without(queue, id)[i].command.id != Some(id),
        forall|task: QueuedTask|
            queue.contains(task) && task.command.id != Some(id) ==> #[trigger] without(queue, id).contains(
                task,
            ),
{
    let keep = |task: QueuedTask| task.command.id != Some(id);
    assert forall|i: int| 0 <= i < without(queue, id).len() implies queue.contains(
        #[trigger] without(queue, id)[i],
    ) && without(queue, id)[i].command.id != Some(id) by {
        assert(keep(queue.filter(keep)[i]));
        assert(queue.filter(keep).contains(queue.filter(keep)[i]));
        queue.lemma_filter_contains_rev(keep, queue.filter(keep)[i]);
    }
    assert forall|task: QueuedTask| queue.contains(task) && task.command.id != Some(id) implies
        #[trigger] without(queue, id).contains(task) by {
        let i = choose|i: int| 0 <= i < queue.len() && queue[i] == task;
        assert(keep(queue[i]));
    }
}

/// What a filter keeps of a queue, with and without one of its commands.
pub proof fn lemma_filter_remove(queue: Seq<QueuedTask>, at: int, keep: spec_fn(QueuedTask) -> bool)
    requires
        0 <= at < queue.len(),
    ensures
        ({
            let before = queue.take(at).filter(keep);
            let behind = queue.skip(at + 1).filter(keep);
            &&& queue.remove(at).filter(keep) == before + behind
            &&& queue.filter(keep) == if keep(queue[at]) {
                before + seq![queue[at]] + behind
            } else {
                before + behind
            }
        }),
{
    let first = queue.take(at);
    let one = seq![queue[at]];
    let rest = queue.skip(at + 1);
    assert(queue =~= first + one + rest);
    assert(queue.remove(at) =~= first + rest);
    Seq::filter_distributes_over_add(first, rest, keep);
    Seq::filter_distributes_over_add(first + one, rest, keep);
    Seq::filter_distributes_over_add(first, one, keep);
    lemma_filter_one(queue[at], keep);
    if !keep(queue[at]) {
        assert(first.filter(keep) + Seq::<QueuedTask>::empty() =~= first.filter(keep));
    }
}

/// What a filter keeps of a single command.
pub proof fn lemma_filter_one(task: QueuedTask, keep: spec_fn(QueuedTask) -> bool)
    ensures
        seq![task].filter(keep) == if keep(task) {
            seq![task]
        } else {
            Seq::<QueuedTask>::empty()
        },
{
    reveal(Seq::filter);
    assert(seq![task].drop_last() =~= Seq::<QueuedTask>::empty());
    assert(seq![task].drop_last().filter(keep) =~= Seq::<QueuedTask>::empty());
}

/// Giving up deliveries leaves what belongs to other ids alone.
pub proof fn lemma_swept_others<C>(state: RouterView<C>, order: Seq<u128>, id: u128)
    requires
        !order.contains(id),
    ensures
        ({
            let after = state.swept(order);
            &&& after.inflight.contains_key(id) == state.inflight.contains_key(id)
            &&& state.inflight.contains_key(id) ==> after.inflight[id] == state.inflight[id]
            &&& after.outputs.contains_key(id) == state.outputs.contains_key(id)
            &&& state.outputs.contains_key(id) ==> after.outputs[id] == state.outputs[id]
            &&& after.instances == state.instances
        }),
    decreases order.len(),
{
    if order.len() > 0 {
        let shorter = order.drop_last();
        if shorter.contains(id) {
            let i = choose|i: int| 0 <= i < shorter.len() && shorter[i] == id;
            assert(order[i] == id);
        }
        assert(order[order.len() - 1] == order.last());
        lemma_swept_others(state, shorter, id);
    }
}

/// Giving up deliveries that are in flight keeps the state valid.
pub proof fn lemma_swept_valid<C>(state: RouterView<C>, order: Seq<u128>)
    requires
        state.valid(),
        order.no_duplicates(),
        forall|id: u128| #[trigger] order.contains(id) ==> state.inflight.contains_key(id),
    ensures
        state.swept(order).valid(),
        state.swept(order).instances == state.instances,
    decreases order.len(),
{
    if order.len() > 0 {
        let shorter = order.drop_last();
        assert(shorter.no_duplicates());
        assert forall|id: u128| #[trigger] shorter.contains(id) implies state.inflight.contains_key(id) by {
            let i = choose|i: int| 0 <= i < shorter.len() && shorter[i] == id;
            assert(order[i] == id);
            assert(order.contains(id));
        }
        lemma_swept_valid(state, shorter);
        let id = order.last();
        assert(order[order.len() - 1] == id);
        assert(order.contains(id));
        assert(!shorter.contains(id)) by {
            if shorter.contains(id) {
                let i = choose|i: int| 0 <= i < shorter.len() && shorter[i] == id;
                assert(order[i] == order[order.len() - 1]);
            }
        }
        lemma_swept_others(state, shorter, id);
        let before = state.swept(shorter);
        let after = state.swept(order);
        assert(before.inflight.contains_key(id));
        assert(inflight_ok(before.inflight[id].task, id));
        assert forall|i: int| 0 <= i < after.queue.len() implies queued_ok(#[trigger] after.queue[i]) by {
            let task = before.inflight[id].task;
            if task.attempts < MAX_DELIVERY_ATTEMPTS {
                if i > 0 {
                    assert(after.queue[i] == before.queue[i - 1]);
                }
            } else {
                assert(after.queue[i] == before.queue[i]);
            }
        }
        assert forall|k: u128| #[trigger] after.inflight.contains_key(k) implies inflight_ok(
            after.inflight[k].task,
            k,
        ) by {
            assert(before.inflight.contains_key(k));
        }
    }
}

/// The position of the oldest command for a poller is in the queue, and the command is for it.
pub proof fn lemma_next_for(queue: Seq<QueuedTask>, role: TargetRole, instance: Seq<char>)
    ensures
        match next_for(queue, role, instance) {
            Some(at) => {
                &&& 0 <= at < queue.len()
                &&& addressed(queue[at], role, instance)
                &&& forall|i: int| 0 <= i < at ==> !addressed(#[trigger] queue[i], role, instance)
            },
            None => forall|i: int|
                0 <= i < queue.len() ==> !addressed(#[trigger] queue[i], role, instance),
        },
    decreases queue.len(),
{
    if queue.len() > 0 && !addressed(queue[0], role, instance) {
        let rest = queue.skip(1);
        lemma_next_for(rest, role, instance);
        assert forall|i: int|
            0 < i < queue.len() && (next_for(queue, role, instance) matches Some(at) ==> i < at) implies !addressed(
            #[trigger] queue[i],
            role,
            instance,
        ) by {
            assert(rest[i - 1] == queue[i]);
        }
    }
}

/// Whether the deliveries tell the callers of these commands that they could not be delivered.
pub open spec fn tells_undelivered<C>(
    state: RouterView<C>,
    told: Seq<u128>,
    deliveries: Seq<Delivery<C>>,
) -> bool {
    &&& deliveries.len() == told.len()
    &&& forall|i: int|
        0 <= i < told.len() ==> delivers(
            #[trigger] deliveries[i],
            state.outputs[told[i]],
            Err(undelivered_text(state.inflight[told[i]].task.attempts as nat)),
        )
}

fn undelivered(attempts: u32) -> (message: String)
    ensures
        message@ == undelivered_text(attempts as nat),
{
    let mut message = "Failed to deliver the command to Roblox Studio after ".to_owned();
    message.append(decimal(attempts as u128).as_str());
    message.append(" attempts. Studio may be frozen or the MCP plugin disconnected.");
    message
}

impl<C> AppState<C> {
    fn expired_ids(&self, now: u64) -> (order: Vec<u128>)
        ensures
            self@.lists_expired(now, order@),
    {
        let mut order: Vec<u128> = Vec::new();
        for entry in it: self.inflight.iter()
            invariant
                it.seq() == self.inflight.iter().remaining(),
                it.seq().no_duplicates(),
                order@.no_duplicates(),
                forall|id: u128| #[trigger]
                    order@.contains(id) <==> exists|k: int|
                        0 <= k < it.index() && *(#[trigger] it.seq()[k]).0 == id && self@.expired(id, now),
        {
            let ghost before = order@;
            let ghost at = it.index();
            let (id, inflight) = entry;
            proof {
                assert(it.seq()[at as int] == (id, inflight));
                assert(self@.inflight.contains_key(*it.seq()[at as int].0));
                assert(!order@.contains(*id)) by {
                    if order@.contains(*id) {
                        let k = choose|k: int|
                            0 <= k < at && *(#[trigger] it.seq()[k]).0 == *id && self@.expired(*id, now);
                        assert(self.inflight@[*it.seq()[k].0] == *it.seq()[k].1);
                        assert(self.inflight@[*it.seq()[at as int].0] == *it.seq()[at as int].1);
                        assert(it.seq()[k] == it.seq()[at as int]);
                    }
                }
            }
            if elapsed(now, inflight.delivered_at) >= ACK_TIMEOUT {
                order.push(*id);
            }
            proof {
                assert forall|other: u128| #[trigger] order@.contains(other) <==> exists|k: int|
                    0 <= k < at + 1 && *(#[trigger] it.seq()[k]).0 == other && self@.expired(other, now) by {
                    if order@.contains(other) {
                        let i = choose|i: int| 0 <= i < order@.len() && order@[i] == other;
                        if i < before.len() {
                            assert(before[i] == other);
                            assert(before.contains(other));
                            let k = choose|k: int|
                                0 <= k < at && *(#[trigger] it.seq()[k]).0 == other && self@.expired(other, now);
                            assert(*it.seq()[k].0 == other);
                        } else {
                            assert(*it.seq()[at as int].0 == other);
                        }
                    }
                    if exists|k: int|
                        0 <= k < at + 1 && *(#[trigger] it.seq()[k]).0 == other && self@.expired(other, now) {
                        let k = choose|k: int|
                            0 <= k < at + 1 && *(#[trigger] it.seq()[k]).0 == other && self@.expired(other, now);
                        if k < at {
                            assert(before.contains(other));
                            let i = choose|i: int| 0 <= i < before.len() && before[i] == other;
                            assert(order@[i] == other);
                        } else {
                            assert(order@[before.len() as int] == other);
                        }
                    }
                }
            }
        }
        proof {
            assert forall|id: u128| #[trigger] order@.contains(id) <==> self@.expired(id, now) by {
                if self@.expired(id, now) {
                    let all = self.inflight.iter().remaining();
                    assert(all.contains((&id, &self.inflight@[id])));
                    let k = choose|k: int| 0 <= k < all.len() && all[k] == (&id, &self.inflight@[id]);
                    assert(*all[k].0 == id);
                }
            }
        }
        order
    }

    /// Returns unacknowledged commands to the queue so that a delivery that died with its
    /// connection is retried instead of hanging the tool call forever. The callers of commands that
    /// were delivered too often are told so. Commands that expire together are taken in no
    /// particular order.
    pub fn requeue_expired_inflight(&mut self, now: u64) -> (deliveries: Vec<Delivery<C>>)
        requires
            old(self).wf(),
        ensures
            final(self).wf(),
            exists|order: Seq<u128>|
                {
                    &&& #[trigger] old(self)@.lists_expired(now, order)
                    &&& final(self)@ == old(self)@.swept(order)
                    &&& tells_undelivered(old(self)@, old(self)@.told(order), deliveries@)
                },
    {
        let order = self.expired_ids(now);
        let ghost start = self@;
        let mut deliveries: Vec<Delivery<C>> = Vec::new();
        let mut i: usize = 0;
        proof {
            assert(start.swept(order@.take(0)) == start);
            assert(start.told(order@.take(0)) == Seq::<u128>::empty()) by {
                reveal(Seq::filter);
            }
        }
        while i < order.len()
            invariant
                i <= order.len(),
                start.lists_expired(now, order@),
                start.valid(),
                self.instances == old(self).instances,
                self@ == start.swept(order@.take(i as int)),
                tells_undelivered(start, start.told(order@.take(i as int)), deliveries@),
            decreases order.len() - i,
        {
            let id: u128 = order[i];
            let ghost done = order@.take(i as int);
            let ghost next = order@.take(i + 1);
            let ghost before = self@;
            let ghost sent = deliveries@;
            proof {
                assert(next.drop_last() == done);
                assert(next.last() == id);
                assert(order@.contains(id));
                assert(!done.contains(id)) by {
                    if done.contains(id) {
                        let k = choose|k: int| 0 <= k < done.len() && done[k] == id;
                        assert(order@[k] == order@[i as int]);
                    }
                }
                lemma_swept_others(start, done, id);
                reveal(Seq::filter);
            }
            if let Some(inflight) = self.inflight.remove(&id) {
                let task = inflight.task;
                if task.attempts >= MAX_DELIVERY_ATTEMPTS {
                    if let Some(channel) = self.output_map.remove(&id) {
                        deliveries.push(
                            Delivery { channel, result: Err(undelivered(task.attempts)) },
                        );
                        proof {
                            assert(start.told(next) == start.told(done).push(id));
                        }
                    } else {
                        proof {
                            assert(before.outputs.remove(id) =~= before.outputs);
                        }
                    }
                } else {
                    self.process_queue.push_front(task);
                }
            }
            proof {
                assert(self@.queue == start.swept(next).queue);
                assert(self@.inflight =~= start.swept(next).inflight);
                assert(self@.outputs =~= start.swept(next).outputs);
                assert(self@ == start.swept(next));
                let told = start.told(next);
                assert forall|k: int| 0 <= k < told.len() implies delivers(
                    #[trigger] deliveries@[k],
                    start.outputs[told[k]],
                    Err(undelivered_text(start.inflight[told[k]].task.attempts as nat)),
                ) by {
                    if k < sent.len() {
                        assert(deliveries@[k] == sent[k]);
                        assert(told[k] == start.told(done)[k]);
                    }
                }
            }
            i = i + 1;
        }
        proof {
            assert(order@.take(order.len() as int) == order@);
            lemma_swept_valid(start, order@);
        }
        deliveries
    }

    /// Hands out the oldest command for this role of this window; everything else stays queued for
    /// its own poller. The command counts as in flight until the plugin acknowledges it.
    pub fn hand_out(&mut self, role: TargetRole, instance: &str, now: u64) -> (command: Option<ToolArguments>)
        requires
            old(self).wf(),
        ensures
            final(self).wf(),
            match next_for(old(self)@.queue, role, instance@) {
                Some(at) => command == Some(old(self)@.queue[at].command) && final(self)@
                    == old(self)@.handed_out(at, now),
                None => command is None && final(self)@ == old(self)@,
            },
            command matches Some(command) ==> command.target == role && (command.instance matches Some(own)
                && own@ == instance@),
            command is None ==> forall|i: int|
                0 <= i < old(self)@.queue.len() && (#[trigger] old(self)@.queue[i]).command.target == role
                    ==> !(old(self)@.queue[i].command.instance matches Some(own) && own@ == instance@),
    {
        let ghost queue = self.process_queue@;
        let mut at: usize = 0;
        proof {
            assert(queue.skip(0) == queue);
            lemma_next_for(queue, role, instance@);
        }
        while at < self.process_queue.len()
            invariant
                self == old(self),
                queue == self.process_queue@,
                at <= queue.len(),
                forall|i: int| 0 <= i < at ==> !addressed(#[trigger] queue[i], role, instance@),
            ensures
                self == old(self),
                at <= queue.len(),
                forall|i: int| 0 <= i < at ==> !addressed(#[trigger] queue[i], role, instance@),
                at < queue.len() ==> addressed(queue[at as int], role, instance@),
            decreases self.process_queue.len() - at,
        {
            let task = &self.process_queue[at];
            let matches = match &task.command.instance {
                Some(own) => task.command.target == role && same_text(own.as_str(), instance),
                None => false,
            };
            if matches {
                break;
            }
            at = at + 1;
        }
        proof {
            lemma_next_for(queue, role, instance@);
            let found = next_for(queue, role, instance@);
            if at < queue.len() {
                assert(found == Some(at as int)) by {
                    assert(addressed(queue[at as int], role, instance@));
                    if found is Some {
                        assert(addressed(queue[found->0], role, instance@));
                    }
                }
            } else {
                assert(found is None) by {
                    if found is Some {
                        assert(addressed(queue[found->0], role, instance@));
                    }
                }
            }
        }
        let mut task = match self.process_queue.remove(at) {
            Some(task) => task,
            None => return None,
        };
        proof {
            assert(queued_ok(queue[at as int]));
        }
        task.attempts = task.attempts + 1;
        let command = task.command.clone();
        if let Some(id) = task.command.id {
            self.inflight.insert(id, InflightTask { task, delivered_at: now });
        }
        proof {
            let goal = old(self)@.handed_out(at as int, now);
            assert(self@.queue == goal.queue);
            assert(self@.inflight =~= goal.inflight);
            assert(self@ == goal);
            assert forall|i: int| 0 <= i < self@.queue.len() implies queued_ok(#[trigger] self@.queue[i]) by {
                if i < at {
                    assert(self@.queue[i] == queue[i]);
                } else {
                    assert(self@.queue[i] == queue[i + 1]);
                }
            }
            assert forall|id: u128| #[trigger] self@.inflight.contains_key(id) implies inflight_ok(
                self@.inflight[id].task,
                id,
            ) by {
                if Some(id) != command.id {
                    assert(old(self)@.inflight.contains_key(id));
                }
            }
        }
        Some(command)
    }

    /// Queues a command for a caller that waits for its result.
    pub fn enqueue(&mut self, command: ToolArguments, id: u128, channel: C)
        requires
            old(self).wf(),
            command.target != TargetRole::Legacy,
        ensures
            final(self).wf(),
            final(self)@ == old(self)@.queued(command, id, channel),
    {
        let ghost queue = self.process_queue@;
        self.process_queue.push_back(QueuedTask { command, attempts: 0 });
        self.output_map.insert(id, channel);
        proof {
            assert(self@ == old(self)@.queued(command, id, channel));
            assert forall|i: int| 0 <= i < self@.queue.len() implies queued_ok(#[trigger] self@.queue[i]) by {
                if i < queue.len() {
                    assert(self@.queue[i] == queue[i]);
                }
            }
            assert(self@.inflight == old(self)@.inflight);
        }
    }

    /// The plugin has a command: it is not delivered again. The watchdog may have requeued it before
    /// this acknowledgement arrived; then the queued duplicate is dropped.
    pub fn ack(&mut self, payload: &AckRequest)
        requires
            old(self).wf(),
        ensures
            final(self).wf(),
            final(self)@ == old(self)@.acked(payload.id),
    {
        let ghost before = self@;
        let id: u128 = payload.id;
        match self.inflight.remove(&id) {
            Some(_) => {
                proof {
                    assert(self@ == before.acked(id));
                    assert(self@.queue == before.queue);
                    assert forall|k: u128| #[trigger] self@.inflight.contains_key(k) implies inflight_ok(
                        self@.inflight[k].task,
                        k,
                    ) by {
                        assert(before.inflight.contains_key(k));
                    }
                }
            },
            None => {
                proof {
                    assert(before.inflight.remove(id) =~= before.inflight);
                    assert(self@ == before);
                }
                self.drop_queued(id);
            },
        }
    }

    /// Removes every trace of a command.
    pub fn forget(&mut self, id: u128) -> (channel: Option<C>)
        requires
            old(self).wf(),
        ensures
            final(self).wf(),
            final(self)@ == old(self)@.forgotten(id),
            match channel {
                Some(channel) => old(self)@.outputs.contains_key(id) && old(self)@.outputs[id] == channel,
                None => !old(self)@.outputs.contains_key(id),
            },
    {
        let ghost before = self@;
        self.inflight.remove(&id);
        proof {
            assert(self@ == (RouterView { inflight: before.inflight.remove(id), ..before }));
            assert(self@.queue == before.queue);
            assert forall|k: u128| #[trigger] self@.inflight.contains_key(k) implies inflight_ok(
                self@.inflight[k].task,
                k,
            ) by {
                assert(before.inflight.contains_key(k));
            }
        }
        self.drop_queued(id);
        let ghost dropped = self@;
        let channel = self.output_map.remove(&id);
        proof {
            assert(self@.queue == dropped.queue);
            assert(self@.inflight == dropped.inflight);
            assert(self@.outputs =~= before.outputs.remove(id));
            assert(self@ == before.forgotten(id));
        }
        channel
    }

    /// Takes the plugin's response to a command. A response is also an implicit acknowledgement, so
    /// nothing of the command is delivered again; where nobody waits for it any more, it is
    /// accepted all the same.
    pub fn respond(&mut self, payload: RunCommandResponse) -> (delivery: Option<Delivery<C>>)
        requires
            old(self).wf(),
        ensures
            final(self).wf(),
            final(self)@ == old(self)@.forgotten(payload.id),
            match delivery {
                Some(delivery) => old(self)@.outputs.contains_key(payload.id) && delivers(
                    delivery,
                    old(self)@.outputs[payload.id],
                    response_result(payload),
                ),
                None => !old(self)@.outputs.contains_key(payload.id),
            },
    {
        match self.forget(payload.id) {
            Some(channel) => {
                let result = result_of(payload);
                Some(Delivery { channel, result })
            },
            None => None,
        }
    }

    /// Hands a result to the caller of a command, where it still waits.
    pub fn deliver_result(&mut self, id: Option<u128>, result: Result<String, String>) -> (delivery: Option<
        Delivery<C>,
    >)
        requires
            old(self).wf(),
        ensures
            final(self).wf(),
            final(self)@ == match id {
                Some(id) => old(self)@.answered(id),
                None => old(self)@,
            },
            match delivery {
                Some(delivery) => id matches Some(id) && old(self)@.outputs.contains_key(id) && delivers(
                    delivery,
                    old(self)@.outputs[id],
                    reply_view(result),
                ),
                None => id matches Some(id) ==> !old(self)@.outputs.contains_key(id),
            },
    {
        match id {
            Some(id) => match self.close_output(id) {
                Some(channel) => Some(Delivery { channel, result }),
                None => None,
            },
            None => None,
        }
    }

    /// Takes the channel of a caller out of the state.
    pub fn close_output(&mut self, id: u128) -> (channel: Option<C>)
        requires
            old(self).wf(),
        ensures
            final(self).wf(),
            final(self)@ == old(self)@.answered(id),
            match channel {
                Some(channel) => old(self)@.outputs.contains_key(id) && old(self)@.outputs[id] == channel,
                None => !old(self)@.outputs.contains_key(id),
            },
    {
        let ghost before = self@;
        let channel = self.output_map.remove(&id);
        proof {
            assert(self@.outputs =~= before.outputs.remove(id));
            assert(self@ == before.answered(id));
            assert(self@.queue == before.queue);
            assert(self@.inflight == before.inflight);
        }
        channel
    }

    /// Takes the oldest command out of the queue.
    pub fn pop_front(&mut self) -> (task: Option<QueuedTask>)
        requires
            old(self).wf(),
        ensures
            final(self).wf(),
            match task {
                Some(task) => {
                    &&& old(self)@.queue.len() > 0
                    &&& task == old(self)@.queue[0]
                    &&& queued_ok(task)
                    &&& final(self)@ == (RouterView { queue: old(self)@.queue.skip(1), ..old(self)@ })
                },
                None => old(self)@.queue.len() == 0 && final(self)@ == old(self)@,
            },
    {
        let ghost before = self@;
        let task = self.process_queue.pop_front();
        proof {
            if task is Some {
                assert(before.queue.subrange(1, before.queue.len() as int) == before.queue.skip(1));
                assert(queued_ok(before.queue[0]));
                assert forall|i: int| 0 <= i < self@.queue.len() implies queued_ok(#[trigger] self@.queue[i]) by {
                    assert(self@.queue[i] == before.queue[i + 1]);
                }
                assert(self@.inflight == before.inflight);
            } else {
                assert(self@ == before);
            }
        }
        task
    }

    /// Puts a command back where it was taken from.
    pub fn push_front(&mut self, task: QueuedTask)
        requires
            old(self).wf(),
            queued_ok(task),
        ensures
            final(self).wf(),
            final(self)@ == (RouterView { queue: seq![task] + old(self)@.queue, ..old(self)@ }),
    {
        let ghost before = self@;
        self.process_queue.push_front(task);
        proof {
            assert forall|i: int| 0 <= i < self@.queue.len() implies queued_ok(#[trigger] self@.queue[i]) by {
                if i > 0 {
                    assert(self@.queue[i] == before.queue[i - 1]);
                }
            }
            assert(self@.inflight == before.inflight);
        }
    }
}

/// The result that a response carries.
pub open spec fn response_result(payload: RunCommandResponse) -> Result<Seq<char>, Seq<char>> {
    if payload.success {
        Ok(payload.response@)
    } else {
        Err(payload.response@)
    }
}

/// The result that a response carries.
pub fn result_of(payload: RunCommandResponse) -> (result: Result<String, String>)
    ensures
        reply_view(result) == response_result(payload),
{
    if payload.success {
        Ok(payload.response)
    } else {
        Err(payload.response)
    }
}

} // verus!
