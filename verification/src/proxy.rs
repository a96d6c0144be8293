//! Several server processes share one port: the one that owns it serves the plugin, the others
//! forward their commands to it and take the port over when it exits.

use crate::commands::{RunCommandResponse, ToolArguments};
use crate::instances::{connected_ids, role_is_fresh};
use crate::role::TargetRole;
use crate::routing::auto_instance;
use crate::runs::{role_missing_text, RoleWait, WaitOutcome};
use crate::state::{
    delivers, queued_ok, response_result, result_of, AppState, Delivery, QueuedTask, RouterView,
};
use crate::text::{decimal, decimal_spec, reply_view, string_view};
use crate::timing::{
    execution_timeout, execution_timeout_spec, whole_seconds, whole_seconds_spec, FORWARD_GRACE,
    PORT_REBIND_DELAY, ROLE_WAIT_INTERVAL,
};
use vstd::prelude::*;

verus! {

/// The port that the Studio plugin polls.
pub const STUDIO_PLUGIN_PORT: u16 = 44755;

/// A forwarded command whose window is settled but whose DataModel may still have to appear.
pub struct ProxyWaiting {
    command: ToolArguments,
    id: u128,
    instance: String,
}

/// A forwarded command that may be queued.
pub struct ProxyReady {
    command: ToolArguments,
    id: u128,
}

impl ProxyWaiting {
    /// The command, its id and the window it is addressed to.
    pub closed spec fn parts(self) -> (ToolArguments, u128, Seq<char>) {
        (self.command, self.id, self.instance@)
    }

    /// Whether the command is addressed to that window, under that id, and not to the edit
    /// DataModel.
    pub open spec fn wf(self) -> bool {
        let (command, id, instance) = self.parts();
        &&& command.id == Some(id)
        &&& string_view(command.instance) == Some(instance)
        &&& command.target != TargetRole::Edit
    }
}

impl ProxyReady {
    /// The command and its id.
    pub closed spec fn parts(self) -> (ToolArguments, u128) {
        (self.command, self.id)
    }

    /// Whether the command is addressed to some window, under that id, and to a current role.
    pub open spec fn wf(self) -> bool {
        let (command, id) = self.parts();
        &&& command.id == Some(id)
        &&& command.instance is Some
        &&& command.target != TargetRole::Legacy
    }
}

/// What becomes of a forwarded command.
pub enum ProxyStep {
    /// It is refused as malformed.
    Reject { message: String },
    /// It is answered without being queued.
    Reply { response: RunCommandResponse },
    /// Its DataModel has to be polling first.
    WaitForRole { waiting: ProxyWaiting },
    /// It may be queued.
    Ready { ready: ProxyReady },
    /// Look again at its DataModel after this many nanoseconds.
    Sleep { waiting: ProxyWaiting, nanos: u64 },
}

/// An answer that reports a failure.
pub open spec fn fails_with(response: RunCommandResponse, id: u128, message: Seq<char>) -> bool {
    !response.success && response.id == id && response.response@ == message
}

/// The command addressed to this window.
pub open spec fn readdressed(command: ToolArguments, to: ToolArguments, instance: Seq<char>) -> bool {
    &&& to.args == command.args
    &&& to.id == command.id
    &&& to.target == command.target
    &&& string_view(to.instance) == Some(instance)
}

/// The window a forwarded command is addressed to: the one it names, or else the single connected
/// one.
pub open spec fn proxy_instance<C>(state: RouterView<C>, command: ToolArguments, now: u64) -> Result<
    Seq<char>,
    Seq<char>,
> {
    match command.instance {
        Some(instance) => Ok(instance@),
        None => auto_instance(connected_ids(state.instances, now)),
    }
}

/// What a forwarding server is told when a command took too long.
pub open spec fn proxy_timeout_text(run_timeout: nat) -> Seq<char> {
    "Timed out after "@ + decimal_spec(whole_seconds_spec(run_timeout)) + "s waiting for Roblox Studio"@
}

/// What came of forwarding a command.
pub enum ForwardOutcome {
    /// The port owner answered.
    Reply { response: RunCommandResponse },
    /// The answer could not be read.
    BadReply { error: String },
    /// The port owner is not there any more.
    Unreachable,
    /// The request failed otherwise.
    Failed { error: String },
}

/// What a forwarding server does next.
pub enum ForwardStep {
    /// It stops.
    Shutdown,
    /// It waits for a command.
    Idle,
    /// It forwards this command and waits for the answer this many nanoseconds.
    Forward { entry: QueuedTask, request_timeout: u128 },
}

/// How a forwarding server goes on after an answer.
pub enum ForwardEnd<C> {
    /// It hands the result to the caller, where it still waits, and goes on.
    Deliver { delivery: Option<Delivery<C>> },
    /// The port owner is gone: the port is free to be taken over.
    PrimaryGone,
}

/// The result of a forwarded command; an owner that is gone leaves none.
pub open spec fn forwarded_result(outcome: ForwardOutcome) -> Option<Result<Seq<char>, Seq<char>>> {
    match outcome {
        ForwardOutcome::Reply { response } => Some(response_result(response)),
        ForwardOutcome::BadReply { error } => Some(Err(error@)),
        ForwardOutcome::Unreachable => None,
        ForwardOutcome::Failed { error } => Some(
            Err("Failed to forward command to the primary MCP instance: "@ + error@),
        ),
    }
}

impl<C> AppState<C> {
    /// Receives a forwarded command. Forwarding servers have no knowledge of polls; the window is
    /// resolved and the DataModel's presence enforced here, so that misaddressed commands fail fast
    /// instead of sitting in the queue until their timeout.
    pub fn admit_proxied(&self, command: ToolArguments, now: u64) -> (step: ProxyStep)
        requires
            self.wf(),
        ensures
            match command.id {
                None => step matches ProxyStep::Reject { message } && message@
                    == "Got proxy command with no id"@,
                Some(id) => match proxy_instance(self@, command, now) {
                    Err(message) => step matches ProxyStep::Reply { response } && fails_with(
                        response,
                        id,
                        message,
                    ),
                    Ok(instance) => if command.target == TargetRole::Edit {
                        step matches ProxyStep::Ready { ready } && ready.wf() && ready.parts().1 == id
                            && readdressed(command, ready.parts().0, instance)
                    } else {
                        step matches ProxyStep::WaitForRole { waiting } && waiting.wf()
                            && waiting.parts().1 == id && waiting.parts().2 == instance && readdressed(
                            command,
                            waiting.parts().0,
                            instance,
                        )
                    },
                },
            },
    {
        let id: u128 = match command.id {
            Some(id) => id,
            None => {
                return ProxyStep::Reject { message: "Got proxy command with no id".to_owned() };
            },
        };
        let instance = match command.instance {
            Some(instance) => instance,
            None => match self.resolve_auto_instance(now) {
                Ok(instance) => instance,
                Err(message) => {
                    return ProxyStep::Reply {
                        response: RunCommandResponse { success: false, response: message, id },
                    };
                },
            },
        };
        let addressed = ToolArguments {
            args: command.args,
            id: command.id,
            target: command.target,
            instance: Some(instance.clone()),
        };
        if command.target == TargetRole::Edit {
            ProxyStep::Ready { ready: ProxyReady { command: addressed, id } }
        } else {
            ProxyStep::WaitForRole { waiting: ProxyWaiting { command: addressed, id, instance } }
        }
    }

    /// Looks once whether the DataModel of a forwarded command is polling.
    pub fn await_proxied_role(&self, waiting: ProxyWaiting, deadline: u64, now: u64) -> (step: ProxyStep)
        requires
            self.wf(),
            waiting.wf(),
        ensures
            ({
                let (command, id, instance) = waiting.parts();
                if role_is_fresh(self@.instances, instance, command.target, now) {
                    step matches ProxyStep::Ready { ready } && ready.wf() && ready.parts() == (command, id)
                } else if now >= deadline {
                    step matches ProxyStep::Reply { response } && fails_with(
                        response,
                        id,
                        role_missing_text(command.target, instance),
                    )
                } else {
                    step == (ProxyStep::Sleep { waiting, nanos: ROLE_WAIT_INTERVAL })
                }
            }),
    {
        match self.wait_for_role(
            waiting.instance.as_str(),
            waiting.command.target,
            deadline,
            now,
        ) {
            RoleWait::Ready => {
                let id: u128 = waiting.id;
                ProxyStep::Ready { ready: ProxyReady { command: waiting.command, id } }
            },
            RoleWait::Missing { message } => ProxyStep::Reply {
                response: RunCommandResponse { success: false, response: message, id: waiting.id },
            },
            RoleWait::Sleep { nanos } => ProxyStep::Sleep { waiting, nanos },
        }
    }

    /// Queues a forwarded command, and says under which id and how long to wait for its result.
    pub fn enqueue_proxied(&mut self, ready: ProxyReady, channel: C) -> (wait: (u128, u128))
        requires
            old(self).wf(),
            ready.wf(),
        ensures
            final(self).wf(),
            wait.0 == ready.parts().1,
            wait.1 == execution_timeout_spec(*ready.parts().0.args),
            final(self)@ == old(self)@.queued(ready.parts().0, ready.parts().1, channel),
    {
        let run_timeout: u128 = execution_timeout(&*ready.command.args);
        let id: u128 = ready.id;
        self.enqueue(ready.command, id, channel);
        (id, run_timeout)
    }

    /// Ends the wait for a forwarded command's result; nothing of the command is left.
    pub fn finish_proxied(&mut self, id: u128, run_timeout: u128, outcome: WaitOutcome) -> (response: Result<
        RunCommandResponse,
        String,
    >)
        requires
            old(self).wf(),
        ensures
            final(self).wf(),
            match outcome {
                WaitOutcome::Closed => {
                    &&& final(self)@ == old(self)@
                    &&& response matches Err(message) && message@ == "Couldn't receive response"@
                },
                WaitOutcome::TimedOut => {
                    &&& final(self)@ == old(self)@.forgotten(id)
                    &&& response matches Ok(response) && fails_with(
                        response,
                        id,
                        proxy_timeout_text(run_timeout as nat),
                    )
                },
                WaitOutcome::Received { result } => {
                    &&& final(self)@ == old(self)@.forgotten(id)
                    &&& response matches Ok(response) && response.id == id && response_result(response)
                        == reply_view(result)
                },
            },
    {
        let result = match outcome {
            WaitOutcome::Closed => return Err("Couldn't receive response".to_owned()),
            WaitOutcome::TimedOut => {
                let mut message = "Timed out after ".to_owned();
                message.append(decimal(whole_seconds(run_timeout)).as_str());
                message.append("s waiting for Roblox Studio");
                Err(message)
            },
            WaitOutcome::Received { result } => result,
        };
        self.forget(id);
        Ok(
            match result {
                Ok(response) => RunCommandResponse { success: true, response, id },
                Err(response) => RunCommandResponse { success: false, response, id },
            },
        )
    }

    /// The next step of a forwarding server: it takes its oldest command and forwards it, unless it
    /// is to shut down.
    pub fn next_forward(&mut self, shutdown: bool) -> (step: ForwardStep)
        requires
            old(self).wf(),
        ensures
            final(self).wf(),
            if shutdown {
                step is Shutdown && final(self)@ == old(self)@
            } else if old(self)@.queue.len() == 0 {
                step is Idle && final(self)@ == old(self)@
            } else {
                &&& step matches ForwardStep::Forward { entry, request_timeout } && entry
                    == old(self)@.queue[0] && queued_ok(entry) && request_timeout
                    == execution_timeout_spec(*entry.command.args) + FORWARD_GRACE
                &&& final(self)@ == (RouterView { queue: old(self)@.queue.skip(1), ..old(self)@ })
            },
    {
        if shutdown {
            return ForwardStep::Shutdown;
        }
        match self.pop_front() {
            None => ForwardStep::Idle,
            Some(entry) => {
                let run_timeout: u128 = execution_timeout(&*entry.command.args);
                let request_timeout: u128 = run_timeout + FORWARD_GRACE as u128;
                ForwardStep::Forward { entry, request_timeout }
            },
        }
    }

    /// Looks at what came of forwarding a command. Where the port owner is gone the command goes
    /// back to the front of the queue, so that it survives the takeover of the port.
    pub fn forwarded(&mut self, entry: QueuedTask, outcome: ForwardOutcome) -> (end: ForwardEnd<C>)
        requires
            old(self).wf(),
            queued_ok(entry),
        ensures
            final(self).wf(),
            match forwarded_result(outcome) {
                None => {
                    &&& end is PrimaryGone
                    &&& final(self)@ == (RouterView {
                        queue: seq![entry] + old(self)@.queue,
                        ..old(self)@
                    })
                },
                Some(result) => {
                    &&& final(self)@ == match entry.command.id {
                        Some(id) => old(self)@.answered(id),
                        None => old(self)@,
                    }
                    &&& end matches ForwardEnd::Deliver { delivery } && match delivery {
                        Some(delivery) => entry.command.id matches Some(id)
                            && old(self)@.outputs.contains_key(id) && delivers(
                            delivery,
                            old(self)@.outputs[id],
                            result,
                        ),
                        None => entry.command.id matches Some(id) ==> !old(self)@.outputs.contains_key(id),
                    }
                },
            },
    {
        let result = match outcome {
            ForwardOutcome::Unreachable => {
                self.push_front(entry);
                return ForwardEnd::PrimaryGone;
            },
            ForwardOutcome::Reply { response } => result_of(response),
            ForwardOutcome::BadReply { error } => Err(error),
            ForwardOutcome::Failed { error } => {
                let mut message = "Failed to forward command to the primary MCP instance: ".to_owned();
                message.append(error.as_str());
                Err(message)
            },
        };
        ForwardEnd::Deliver { delivery: self.deliver_result(entry.command.id, result) }
    }
}

/// What has happened to a server that serves the plugin or forwards to the one that does.
#[derive(Debug)]
pub enum ServeEvent {
    /// It is about to try the port, and has been told to close or not.
    Start { closed: bool },
    /// The port was tried.
    Bound { free: bool },
    /// Serving has ended, with an error or by a graceful shutdown.
    Served { failed: bool },
    /// Forwarding has ended because the server shuts down.
    ForwardingShutDown,
    /// Forwarding has ended because the port owner is gone.
    PrimaryGone,
}

/// What a server does next.
#[derive(Debug)]
pub enum ServeAction {
    /// It tries to bind the port.
    Bind,
    /// It serves the plugin.
    Serve,
    /// It forwards its commands to the port owner.
    Forward,
    /// It starts over after this many nanoseconds.
    Restart { nanos: u64 },
    /// It is done.
    Stop,
}

/// What a server does next.
pub open spec fn serve_spec(event: ServeEvent) -> ServeAction {
    match event {
        ServeEvent::Start { closed: true } => ServeAction::Stop,
        ServeEvent::Start { closed: false } => ServeAction::Bind,
        ServeEvent::Bound { free: true } => ServeAction::Serve,
        ServeEvent::Bound { free: false } => ServeAction::Forward,
        ServeEvent::Served { failed: true } => ServeAction::Restart { nanos: PORT_REBIND_DELAY },
        ServeEvent::Served { failed: false } => ServeAction::Stop,
        ServeEvent::ForwardingShutDown => ServeAction::Stop,
        ServeEvent::PrimaryGone => ServeAction::Restart { nanos: PORT_REBIND_DELAY },
    }
}

/// Serves the plugin when the port is free; otherwise forwards to the server that owns the port, and
/// takes the port over when that server exits.
pub fn serve_step(event: ServeEvent) -> (action: ServeAction)
    ensures
        action == serve_spec(event),
{
    match event {
        ServeEvent::Start { closed } => if closed {
            ServeAction::Stop
        } else {
            ServeAction::Bind
        },
        ServeEvent::Bound { free } => if free {
            ServeAction::Serve
        } else {
            ServeAction::Forward
        },
        ServeEvent::Served { failed } => if failed {
            ServeAction::Restart { nanos: PORT_REBIND_DELAY }
        } else {
            ServeAction::Stop
        },
        ServeEvent::ForwardingShutDown => ServeAction::Stop,
        ServeEvent::PrimaryGone => ServeAction::Restart { nanos: PORT_REBIND_DELAY },
    }
}

} // verus!
