//! Running a command: waiting for its DataModel, queueing it, waiting for its result, and one retry
//! after the Studio window had to be brought back.

use crate::commands::{is_random_uuid, share, ToolArguments};
use crate::instances::{display_spec, instance_display, role_is_fresh, StudioInstance};
use crate::role::TargetRole;
use crate::routing::poll_status_spec;
use crate::state::AppState;
use crate::text::{
    as_deref, contains, contains_text, copy_text, decimal, decimal_spec, split_once,
    split_once_spec, string_view,
};
use crate::timing::{
    execution_timeout, execution_timeout_spec, whole_seconds, whole_seconds_spec,
    ROLE_WAIT_INTERVAL, ROLE_WAIT_TIMEOUT,
};
use crate::tools::ToolArgumentValues;
use std::sync::Arc;
use vstd::prelude::*;

verus! {

/// A point in time some nanoseconds from now; the clock's last moment where that lies beyond it.
pub open spec fn deadline_spec(now: u64, delay: u64) -> u64 {
    if now + delay <= u64::MAX {
        (now + delay) as u64
    } else {
        u64::MAX
    }
}

/// A point in time some nanoseconds from now.
pub fn deadline(now: u64, delay: u64) -> (at: u64)
    ensures
        at == deadline_spec(now, delay),
{
    if delay <= u64::MAX - now {
        now + delay
    } else {
        u64::MAX
    }
}

/// Until when a command waits for its DataModel to start polling.
pub fn role_deadline(now: u64) -> (at: u64)
    ensures
        at == deadline_spec(now, ROLE_WAIT_TIMEOUT),
        now + 10_000_000_000 <= u64::MAX ==> at == now + 10_000_000_000,
{
    deadline(now, ROLE_WAIT_TIMEOUT)
}

/// One look at whether the DataModel that a command needs is polling.
#[derive(Debug)]
pub enum RoleWait {
    /// It polls.
    Ready,
    /// It did not start polling in time.
    Missing { message: String },
    /// Look again after this many nanoseconds.
    Sleep { nanos: u64 },
}

/// What a caller is told when the DataModel it needs did not start polling in time.
pub open spec fn role_missing_text(target: TargetRole, instance: Seq<char>) -> Seq<char> {
    target.missing_text() + " (Studio instance: "@ + display_spec(instance) + ")"@
}

/// What happens before a command is queued.
#[derive(Debug)]
pub enum BeforeRun {
    /// It can be queued.
    Submit,
    /// Ask again after this many nanoseconds; the wait ends at the deadline.
    Sleep { nanos: u64, deadline: u64 },
    /// Its DataModel did not start polling in time.
    Fail { message: String },
}

/// Whether this is what happens before a command is queued.
pub open spec fn before_run_spec(
    step: BeforeRun,
    instances: Map<Seq<char>, StudioInstance>,
    target: TargetRole,
    instance: Option<Seq<char>>,
    waiting: Option<u64>,
    now: u64,
) -> bool {
    let deadline = match waiting {
        Some(deadline) => deadline,
        None => deadline_spec(now, ROLE_WAIT_TIMEOUT),
    };
    let waits = waiting is Some || (target != TargetRole::Edit && !instances.is_empty());
    match instance {
        Some(id) => if !waits || role_is_fresh(instances, id, target, now) {
            step is Submit
        } else if now >= deadline {
            step matches BeforeRun::Fail { message } && message@ == role_missing_text(target, id)
        } else {
            step == (BeforeRun::Sleep { nanos: ROLE_WAIT_INTERVAL, deadline })
        },
        None => step is Submit,
    }
}

/// What came of waiting for a command's result.
#[derive(Debug)]
pub enum WaitOutcome {
    /// The result arrived.
    Received { result: Result<String, String> },
    /// The channel was closed without a result.
    Closed,
    /// The time ran out.
    TimedOut,
}

/// A queued command whose result is awaited.
#[derive(Debug)]
pub struct PendingRun {
    pub id: u128,
    pub target: TargetRole,
    pub instance: Option<String>,
    /// How long to wait for the result, in nanoseconds.
    pub run_timeout: u128,
}

/// What a caller is told when its command took too long.
pub open spec fn timed_out_text(run_timeout: nat, status: Seq<char>) -> Seq<char> {
    "Timed out after "@ + decimal_spec(whole_seconds_spec(run_timeout))
        + "s waiting for Roblox Studio ("@ + status
        + "). Studio may be busy (publishing or loading) or the MCP plugin may be disconnected. Make sure Studio is open with the MCP plugin enabled, then try again."@
}

impl<C> AppState<C> {
    /// Whether a command has to wait for its DataModel to poll before it is queued. The edit
    /// DataModel always exists; and a server that knows no windows leaves the wait to the port owner.
    pub fn must_wait_for_role(&self, target: TargetRole, instance: &Option<String>) -> (wait: bool)
        requires
            self.wf(),
        ensures
            wait == (target != TargetRole::Edit && instance is Some && !self@.instances.is_empty()),
    {
        target != TargetRole::Edit && instance.is_some() && !self.knows_no_instance()
    }

    /// Looks once whether the target DataModel of one Studio window is polling. Play-mode DataModels
    /// take a few seconds to load plugins after play mode has started, so a brief wait avoids
    /// spurious failures.
    pub fn wait_for_role(&self, instance: &str, target: TargetRole, deadline: u64, now: u64) -> (look: RoleWait)
        requires
            self.wf(),
        ensures
            if role_is_fresh(self@.instances, instance@, target, now) {
                look is Ready
            } else if now >= deadline {
                look matches RoleWait::Missing { message } && message@ == role_missing_text(
                    target,
                    instance@,
                )
            } else {
                look == (RoleWait::Sleep { nanos: ROLE_WAIT_INTERVAL })
            },
    {
        if self.role_fresh(instance, target, now) {
            return RoleWait::Ready;
        }
        if now >= deadline {
            let mut message = target.describe_missing().to_owned();
            message.append(" (Studio instance: ");
            message.append(instance_display(instance).as_str());
            message.append(")");
            return RoleWait::Missing { message };
        }
        RoleWait::Sleep { nanos: ROLE_WAIT_INTERVAL }
    }

    /// Decides whether a command can be queued: at first it may have to wait for its DataModel, and
    /// once it waits (until `waiting`), the DataModel has to start polling in time.
    pub fn before_run(
        &self,
        target: TargetRole,
        instance: &Option<String>,
        waiting: Option<u64>,
        now: u64,
    ) -> (step: BeforeRun)
        requires
            self.wf(),
        ensures
            before_run_spec(step, self@.instances, target, string_view(*instance), waiting, now),
    {
        let deadline: u64 = match waiting {
            Some(deadline) => deadline,
            None => {
                if !self.must_wait_for_role(target, instance) {
                    return BeforeRun::Submit;
                }
                role_deadline(now)
            },
        };
        match instance {
            Some(id) => match self.wait_for_role(id.as_str(), target, deadline, now) {
                RoleWait::Ready => BeforeRun::Submit,
                RoleWait::Missing { message } => BeforeRun::Fail { message },
                RoleWait::Sleep { nanos } => BeforeRun::Sleep { nanos, deadline },
            },
            None => BeforeRun::Submit,
        }
    }

    /// Queues a command under a new id for a caller that waits on `channel`.
    pub fn submit(
        &mut self,
        args: &Arc<ToolArgumentValues>,
        target: TargetRole,
        instance: &Option<String>,
        channel: C,
    ) -> (run: PendingRun)
        requires
            old(self).wf(),
            target != TargetRole::Legacy,
        ensures
            final(self).wf(),
            is_random_uuid(run.id),
            run.target == target,
            run.instance == *instance,
            run.run_timeout == execution_timeout_spec(**args),
            final(self)@ == old(self)@.queued(
                ToolArguments { args: *args, id: Some(run.id), target, instance: *instance },
                run.id,
                channel,
            ),
    {
        let (command, id) = ToolArguments::new(share(args), target, copy_text(instance));
        let run_timeout: u128 = execution_timeout(&**args);
        self.enqueue(command, id, channel);
        PendingRun { id, target, instance: copy_text(instance), run_timeout }
    }

    /// Ends the wait for a command's result. A command that took too long is forgotten, so that
    /// nothing of it is delivered later.
    pub fn finish_run(&mut self, run: PendingRun, outcome: WaitOutcome, now: u64) -> (result: Result<
        String,
        String,
    >)
        requires
            old(self).wf(),
        ensures
            final(self).wf(),
            match outcome {
                WaitOutcome::Received { result: received } => {
                    &&& final(self)@ == old(self)@.answered(run.id)
                    &&& result == received
                },
                WaitOutcome::Closed => {
                    &&& final(self)@ == old(self)@
                    &&& result matches Err(message) && message@ == "Couldn't receive response"@
                },
                WaitOutcome::TimedOut => {
                    &&& final(self)@ == old(self)@.forgotten(run.id)
                    &&& result matches Err(message) && message@ == timed_out_text(
                        run.run_timeout as nat,
                        poll_status_spec(
                            old(self)@.instances,
                            string_view(run.instance),
                            run.target,
                            now,
                        ),
                    )
                },
            },
    {
        match outcome {
            WaitOutcome::Received { result } => {
                self.close_output(run.id);
                result
            },
            WaitOutcome::Closed => Err("Couldn't receive response".to_owned()),
            WaitOutcome::TimedOut => {
                self.forget(run.id);
                let status = self.poll_status(as_deref(&run.instance), run.target, now);
                let mut message = "Timed out after ".to_owned();
                message.append(decimal(whole_seconds(run.run_timeout)).as_str());
                message.append("s waiting for Roblox Studio (");
                message.append(status.as_str());
                message.append(
                    "). Studio may be busy (publishing or loading) or the MCP plugin may be disconnected. Make sure Studio is open with the MCP plugin enabled, then try again.",
                );
                Err(message)
            },
        }
    }
}

/// A command that is to be run on one role of one window, and at most once more.
#[derive(Debug)]
pub struct Execution {
    pub args: Arc<ToolArgumentValues>,
    pub target: TargetRole,
    pub instance: Option<String>,
}

/// A command that failed because Studio was not rendering; its window is to be restored.
#[derive(Debug)]
pub struct NotRendering {
    pub call: Execution,
    pub error: String,
}

/// A command whose window was restored; it is run a second and last time.
#[derive(Debug)]
pub struct Retry {
    pub call: Execution,
    pub title: String,
}

/// What follows the first run of a command.
pub enum AfterRun {
    Done { result: Result<String, String> },
    Restore { failed: NotRendering },
}

/// What follows the attempt to restore the window.
pub enum AfterRestore {
    Done { result: Result<String, String> },
    Run { retry: Retry },
}

/// Whether an error says that Studio does not render, which restoring its window can mend.
pub open spec fn not_rendering(message: Seq<char>) -> bool {
    contains_text(message, "Studio is not rendering"@)
}

impl Execution {
    /// Looks at the result of the first run. The plugin refuses input and captures while Studio is
    /// not rendering (window minimized or fully covered); every other result stands.
    pub fn after_run(self, result: Result<String, String>) -> (next: AfterRun)
        ensures
            if result matches Err(error) && not_rendering(error@) {
                next == (AfterRun::Restore { failed: NotRendering { call: self, error: result->Err_0 } })
            } else {
                next == (AfterRun::Done { result })
            },
    {
        match result {
            Ok(text) => AfterRun::Done { result: Ok(text) },
            Err(error) => {
                if contains(error.as_str(), "Studio is not rendering") {
                    AfterRun::Restore { failed: NotRendering { call: self, error } }
                } else {
                    AfterRun::Done { result: Err(error) }
                }
            },
        }
    }
}

impl NotRendering {
    /// The part of the window title to look for: the place-name part of the instance id, which is all
    /// that follows the first bar.
    pub fn hint(&self) -> (hint: Option<String>)
        ensures
            string_view(hint) == match self.call.instance {
                Some(id) => match split_once_spec(id@, '|') {
                    Some((_, name)) => Some(name),
                    None => None,
                },
                None => None,
            },
    {
        match &self.call.instance {
            Some(id) => match split_once(id.as_str(), '|') {
                Some((_, name)) => Some(name.to_owned()),
                None => None,
            },
            None => None,
        }
    }

    /// Looks at the attempt to restore the window: with its title in hand the same command is run
    /// once more.
    pub fn after_restore(self, restored: Result<String, String>) -> (next: AfterRestore)
        ensures
            match restored {
                Ok(title) => next == (AfterRestore::Run { retry: Retry { call: self.call, title } }),
                Err(reason) => next matches AfterRestore::Done { result } && result matches Err(message)
                    && message@ == self.error@ + " Automatic window restore did not work: "@ + reason@,
            },
    {
        match restored {
            Ok(title) => AfterRestore::Run { retry: Retry { call: self.call, title } },
            Err(reason) => {
                let mut message = self.error;
                message.append(" Automatic window restore did not work: ");
                message.append(reason.as_str());
                AfterRestore::Done { result: Err(message) }
            },
        }
    }
}

impl Retry {
    /// Looks at the result of the second run, which is final.
    pub fn after_retry(self, result: Result<String, String>) -> (last: Result<String, String>)
        ensures
            match result {
                Ok(text) => last == Ok::<String, String>(text),
                Err(error) => last matches Err(message) && message@ == error@ + " (the Studio window '"@
                    + self.title@ + "' was restored automatically and the command retried once)"@,
            },
    {
        match result {
            Ok(text) => Ok(text),
            Err(error) => {
                let mut message = error;
                message.append(" (the Studio window '");
                message.append(self.title.as_str());
                message.append("' was restored automatically and the command retried once)");
                Err(message)
            },
        }
    }
}

} // verus!
