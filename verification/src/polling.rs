//! The plugin's long polls.

use crate::commands::ToolArguments;
use crate::instances::noted;
use crate::role::TargetRole;
use crate::runs::{deadline, deadline_spec};
use crate::state::{next_for, tells_undelivered, AppState, Delivery, RouterView};
use crate::text::str_view;
use crate::timing::{INFLIGHT_SWEEP_INTERVAL, LONG_POLL_DURATION};
use vstd::prelude::*;

verus! {

/// The window of a poll: polls of older plugins do not name one.
pub open spec fn poll_instance_spec(instance: Option<Seq<char>>) -> Seq<char> {
    match instance {
        Some(instance) => instance,
        None => "default"@,
    }
}

/// The window of a poll.
pub fn poll_instance(instance: Option<&str>) -> (id: &str)
    ensures
        id@ == poll_instance_spec(str_view(instance)),
{
    match instance {
        Some(instance) => instance,
        None => "default",
    }
}

/// Until when a poll is held open.
pub fn poll_deadline(now: u64) -> (at: u64)
    ensures
        at == deadline_spec(now, LONG_POLL_DURATION),
        now + 15_000_000_000 <= u64::MAX ==> at == now + 15_000_000_000,
{
    deadline(now, LONG_POLL_DURATION)
}

/// What a held poll does next.
#[derive(Debug)]
pub enum PollStep {
    /// It is answered with this command.
    Deliver { command: ToolArguments },
    /// It is answered that there is no command.
    Locked,
    /// It looks again when something was queued, or after this many nanoseconds.
    Wait { nanos: u64 },
}

/// How long a held poll waits before it looks again.
pub open spec fn poll_pause(deadline: u64, now: u64) -> u64 {
    if deadline - now < INFLIGHT_SWEEP_INTERVAL {
        (deadline - now) as u64
    } else {
        INFLIGHT_SWEEP_INTERVAL
    }
}

/// What a poll finds in a state, and the state it leaves.
pub open spec fn polled<C>(
    swept: RouterView<C>,
    role: TargetRole,
    instance: Seq<char>,
    deadline: u64,
    now: u64,
) -> (PollStep, RouterView<C>) {
    match next_for(swept.queue, role, instance) {
        Some(at) => (
            PollStep::Deliver { command: swept.queue[at].command },
            swept.handed_out(at, now),
        ),
        None => (
            if now >= deadline {
                PollStep::Locked
            } else {
                PollStep::Wait { nanos: poll_pause(deadline, now) }
            },
            swept,
        ),
    }
}

/// Whether a poll, once noted, took the expired deliveries in this order and led to this step.
pub open spec fn poll_follows<C>(
    noted: RouterView<C>,
    order: Seq<u128>,
    role: TargetRole,
    instance: Seq<char>,
    deadline: u64,
    now: u64,
    step: (PollStep, Vec<Delivery<C>>),
    after: RouterView<C>,
) -> bool {
    &&& noted.lists_expired(now, order)
    &&& tells_undelivered(noted, noted.told(order), step.1@)
    &&& (step.0, after) == polled(noted.swept(order), role, instance, deadline, now)
}

impl<C> AppState<C> {
    /// One look of a held poll: the poll is noted, deliveries that were never acknowledged go back
    /// to the queue (or their callers are told that they failed), and the oldest command for this
    /// role of this window is handed out, where there is one.
    pub fn poll(&mut self, role: TargetRole, instance: &str, deadline: u64, now: u64) -> (step: (
        PollStep,
        Vec<Delivery<C>>,
    ))
        requires
            old(self).wf(),
        ensures
            final(self).wf(),
            exists|order: Seq<u128>|
                poll_follows(
                    old(self)@.noted(instance@, role, now),
                    order,
                    role,
                    instance@,
                    deadline,
                    now,
                    step,
                    final(self)@,
                ),
            step.0 matches PollStep::Deliver { command } ==> command.target == role && (
            command.instance matches Some(own) && own@ == instance@),
    {
        self.note_poll(instance, role, now);
        let ghost noted = self@;
        let deliveries = self.requeue_expired_inflight(now);
        let ghost order = choose|order: Seq<u128>|
            {
                &&& #[trigger] noted.lists_expired(now, order)
                &&& self@ == noted.swept(order)
                &&& tells_undelivered(noted, noted.told(order), deliveries@)
            };
        let step = match self.hand_out(role, instance, now) {
            Some(command) => PollStep::Deliver { command },
            None => if now >= deadline {
                PollStep::Locked
            } else {
                let left: u64 = deadline - now;
                PollStep::Wait {
                    nanos: if left < INFLIGHT_SWEEP_INTERVAL {
                        left
                    } else {
                        INFLIGHT_SWEEP_INTERVAL
                    },
                }
            },
        };
        let found = (step, deliveries);
        proof {
            assert(poll_follows(noted, order, role, instance@, deadline, now, found, self@));
        }
        found
    }
}

} // verus!
