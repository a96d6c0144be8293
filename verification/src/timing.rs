//! How long the router waits. All times are counts of nanoseconds.

use crate::binary64::{Real, NANOS_PER_SEC};
use crate::seconds::{sequence_nanos, steps_nanos};
use crate::tools::ToolArgumentValues;
use vstd::prelude::*;

verus! {

/// How long a poll without a command is held open.
pub const LONG_POLL_DURATION: u64 = 15_000_000_000;

/// The plugin acks a delivered command within milliseconds of receiving it; a missing ack means the
/// long-poll connection died mid-delivery and the command must be requeued.
pub const ACK_TIMEOUT: u64 = 3_000_000_000;

/// How often a held poll looks for deliveries that were never acknowledged.
pub const INFLIGHT_SWEEP_INTERVAL: u64 = 1_000_000_000;

/// How often a command is delivered before the router gives up on it.
pub const MAX_DELIVERY_ATTEMPTS: u32 = 5;

/// Upper bound for tools whose duration is not known in advance.
pub const DEFAULT_TOOL_TIMEOUT: u64 = 300_000_000_000;

/// What a tool with a time limit of its own is given on top of that limit.
pub const PLAY_MODE_TIMEOUT_GRACE: u64 = 60_000_000_000;

/// How long to wait before the port is tried again.
pub const PORT_REBIND_DELAY: u64 = 250_000_000;

/// A connected plugin instance re-polls at least every second, so a poll older than this means that
/// the DataModel's plugin is gone (or play mode never started).
pub const ROLE_FRESHNESS: u64 = 3_000_000_000;

/// How long to wait for a play-mode DataModel to start polling. Covers the gap between the start of
/// play mode and the moment its DataModels have loaded their plugins.
pub const ROLE_WAIT_TIMEOUT: u64 = 10_000_000_000;

/// How long to wait between two looks at a role's polls.
pub const ROLE_WAIT_INTERVAL: u64 = 250_000_000;

/// Studio windows that have not polled for this many seconds are forgotten.
pub const INSTANCE_PRUNE_AFTER_SECS: u64 = 600;

/// How long the engine is given to resume rendering after its window was restored.
pub const RESTORE_SETTLE_DELAY: u64 = 1_500_000_000;

/// What a forwarding server waits on top of the time the forwarded command may take.
pub const FORWARD_GRACE: u64 = 30_000_000_000;

/// A time in nanoseconds: what `seconds` says, held between two bounds, or a default where it says
/// nothing.
pub open spec fn clamped_or(seconds: Option<Real>, default: u64, low: u64, high: u64) -> nat {
    match seconds {
        Some(seconds) => seconds.clamped_nanos_spec(low, high),
        None => default as nat,
    }
}

fn clamped(seconds: &Option<Real>, default: u64, low: u64, high: u64) -> (nanos: u64)
    requires
        low <= default <= high,
    ensures
        nanos == clamped_or(*seconds, default, low, high),
        low <= nanos <= high,
{
    match seconds {
        Some(seconds) => seconds.clamped_nanos(low, high),
        None => default,
    }
}

/// How long a command may take.
pub open spec fn execution_timeout_spec(args: ToolArgumentValues) -> nat {
    match args {
        ToolArgumentValues::RunScriptInPlayMode(args) => (match args.timeout {
            Some(seconds) => seconds as nat,
            None => 100,
        }) * (NANOS_PER_SEC as nat) + PLAY_MODE_TIMEOUT_GRACE as nat,
        ToolArgumentValues::TakeScreenshotCapture(_) => 30_000_000_000,
        ToolArgumentValues::TakeScreenshotRead(_) => 90_000_000_000,
        ToolArgumentValues::SendKey(args) => clamped_or(args.duration, 0, 0, 30_000_000_000)
            + 30_000_000_000,
        ToolArgumentValues::ControlCharacter(args) => clamped_or(
            args.duration,
            15_000_000_000,
            0,
            60_000_000_000,
        ) + 30_000_000_000,
        ToolArgumentValues::WaitFor(args) => clamped_or(
            args.timeout,
            30_000_000_000,
            100_000_000,
            600_000_000_000,
        ) + PLAY_MODE_TIMEOUT_GRACE as nat,
        ToolArgumentValues::MouseDrag(args) => clamped_or(
            args.duration,
            500_000_000,
            50_000_000,
            10_000_000_000,
        ) + 30_000_000_000,
        ToolArgumentValues::InputSequence(args) => steps_nanos(args.steps@)
            + PLAY_MODE_TIMEOUT_GRACE as nat,
        _ => DEFAULT_TOOL_TIMEOUT as nat,
    }
}

/// How long the MCP side waits for Studio before giving up on a command, in nanoseconds. Without a
/// bound here, a command lost to a dead connection would hang the tool call forever.
pub fn execution_timeout(args: &ToolArgumentValues) -> (nanos: u128)
    ensures
        nanos == execution_timeout_spec(*args),
        match args {
            ToolArgumentValues::RunCode(_)
            | ToolArgumentValues::InsertModel(_)
            | ToolArgumentValues::GetConsoleOutput(_)
            | ToolArgumentValues::GetErrors(_)
            | ToolArgumentValues::StartStopPlay(_)
            | ToolArgumentValues::GetStudioMode(_)
            | ToolArgumentValues::GetUiTree(_)
            | ToolArgumentValues::ClickUi(_)
            | ToolArgumentValues::FindUi(_)
            | ToolArgumentValues::ListPrompts(_)
            | ToolArgumentValues::MouseMove(_)
            | ToolArgumentValues::ClickObject(_)
            | ToolArgumentValues::SetCamera(_)
            | ToolArgumentValues::SendText(_) => nanos == DEFAULT_TOOL_TIMEOUT && nanos
                == 300_000_000_000,
            _ => true,
        },
        nanos >= 30_000_000_000,
        nanos + u64::MAX <= u128::MAX,
{
    match args {
        ToolArgumentValues::RunScriptInPlayMode(args) => {
            let seconds: u32 = match args.timeout {
                Some(seconds) => seconds,
                None => 100,
            };
            (seconds as u128) * 1_000_000_000 + 60_000_000_000
        },
        // Capture either completes within its internal 5s race or fails fast.
        ToolArgumentValues::TakeScreenshotCapture(_) => 30_000_000_000,
        // Reading and encoding a large capture takes a few seconds.
        ToolArgumentValues::TakeScreenshotRead(_) => 90_000_000_000,
        ToolArgumentValues::SendKey(args) => {
            clamped(&args.duration, 0, 0, 30_000_000_000) as u128 + 30_000_000_000
        },
        ToolArgumentValues::ControlCharacter(args) => {
            clamped(&args.duration, 15_000_000_000, 0, 60_000_000_000) as u128 + 30_000_000_000
        },
        ToolArgumentValues::WaitFor(args) => {
            clamped(&args.timeout, 30_000_000_000, 100_000_000, 600_000_000_000) as u128
                + 60_000_000_000
        },
        ToolArgumentValues::MouseDrag(args) => {
            clamped(&args.duration, 500_000_000, 50_000_000, 10_000_000_000) as u128
                + 30_000_000_000
        },
        ToolArgumentValues::InputSequence(args) => sequence_nanos(&args.steps) + 60_000_000_000,
        _ => 300_000_000_000,
    }
}

/// The whole seconds of a time.
pub open spec fn whole_seconds_spec(nanos: nat) -> nat {
    nanos / (NANOS_PER_SEC as nat)
}

/// The whole seconds of a time.
pub fn whole_seconds(nanos: u128) -> (seconds: u128)
    ensures
        seconds == whole_seconds_spec(nanos as nat),
{
    nanos / 1_000_000_000
}

/// How long ago something happened; nothing lies in the future.
pub open spec fn elapsed_spec(now: u64, at: u64) -> u64 {
    if now >= at {
        (now - at) as u64
    } else {
        0
    }
}

/// How long ago something happened.
pub fn elapsed(now: u64, at: u64) -> (nanos: u64)
    ensures
        nanos == elapsed_spec(now, at),
{
    if now >= at {
        now - at
    } else {
        0
    }
}

} // verus!
