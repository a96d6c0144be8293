//! Which Studio DataModel a command is routed to.

use crate::text::{same_text, str_view, message_view};
use vstd::prelude::*;

verus! {

/// Which Studio DataModel a command is routed to. Every plugin instance polls with its own role;
/// the edit DataModel always exists, server and client only while play mode is running.
///
/// Polls without a role come from plugins older than the role-routing protocol and count as
/// `Legacy`. Commands are never addressed to `Legacy`, so such plugins starve instead of racing
/// the current plugin for edit-targeted commands.
#[derive(Clone, Copy, Debug, PartialEq, Eq, Hash, Structural)]
pub enum TargetRole {
    Edit,
    Server,
    Client,
    Legacy,
}

impl Default for TargetRole {
    /// Commands that name no role go to the edit DataModel.
    fn default() -> (role: Self)
        ensures
            role == TargetRole::Edit,
    {
        TargetRole::Edit
    }
}

impl TargetRole {
    /// What a caller is told when no DataModel of this role is connected.
    pub open spec fn missing_text(self) -> Seq<char> {
        match self {
            TargetRole::Edit => "The Studio plugin is not connected. Make sure Studio is open with the MCP plugin enabled."@,
            TargetRole::Server => "No play-mode server is connected. Start play mode first with start_stop_play (mode start_play or run_server)."@,
            TargetRole::Client => "No play-mode client is connected. Start play mode first with start_stop_play (mode start_play). Note that run_server mode has no client."@,
            TargetRole::Legacy => "Internal error: command addressed to the legacy role."@,
        }
    }

    /// What a caller is told when no DataModel of this role is connected.
    pub fn describe_missing(self) -> (text: &'static str)
        ensures
            text@ == self.missing_text(),
    {
        match self {
            TargetRole::Edit => "The Studio plugin is not connected. Make sure Studio is open with the MCP plugin enabled.",
            TargetRole::Server => "No play-mode server is connected. Start play mode first with start_stop_play (mode start_play or run_server).",
            TargetRole::Client => "No play-mode client is connected. Start play mode first with start_stop_play (mode start_play). Note that run_server mode has no client.",
            TargetRole::Legacy => "Internal error: command addressed to the legacy role.",
        }
    }

    /// The role's name as messages to people write it.
    pub open spec fn title_text(self) -> Seq<char> {
        match self {
            TargetRole::Edit => "Edit"@,
            TargetRole::Server => "Server"@,
            TargetRole::Client => "Client"@,
            TargetRole::Legacy => "Legacy"@,
        }
    }

    /// The role's name as messages to people write it.
    pub fn title(self) -> (text: &'static str)
        ensures
            text@ == self.title_text(),
    {
        match self {
            TargetRole::Edit => "Edit",
            TargetRole::Server => "Server",
            TargetRole::Client => "Client",
            TargetRole::Legacy => "Legacy",
        }
    }
}

/// The role that a tool's `context` argument asks for, or the message that refuses it.
pub open spec fn parse_context_spec(context: Option<Seq<char>>) -> Result<TargetRole, Seq<char>> {
    match context {
        None => Ok(TargetRole::Edit),
        Some(text) => if text == "edit"@ {
            Ok(TargetRole::Edit)
        } else if text == "server"@ {
            Ok(TargetRole::Server)
        } else if text == "client"@ {
            Ok(TargetRole::Client)
        } else {
            Err("Invalid context '"@ + text + "': must be one of edit, server, or client"@)
        },
    }
}

/// Reads a tool's `context` argument.
pub fn parse_context(context: Option<&str>) -> (target: Result<TargetRole, String>)
    ensures
        message_view(target) == parse_context_spec(str_view(context)),
{
    match context {
        None => Ok(TargetRole::Edit),
        Some(text) => {
            if same_text(text, "edit") {
                Ok(TargetRole::Edit)
            } else if same_text(text, "server") {
                Ok(TargetRole::Server)
            } else if same_text(text, "client") {
                Ok(TargetRole::Client)
            } else {
                let mut message = "Invalid context '".to_owned();
                message.append(text);
                message.append("': must be one of edit, server, or client");
                Err(message)
            }
        },
    }
}

/// Whether a tool's `mode` argument is one of the execution modes, or the message that refuses it.
pub open spec fn validate_mode_spec(mode: Option<Seq<char>>) -> Result<(), Seq<char>> {
    match mode {
        None => Ok(()),
        Some(text) => if text == "output"@ || text == "execute"@ {
            Ok(())
        } else {
            Err("Invalid mode '"@ + text + "': must be output or execute"@)
        },
    }
}

/// Validates the execution mode of `run_code`. The plugin treats any other value than `execute` as
/// output mode; a misspelled mode is refused here instead of silently capturing output.
pub fn validate_mode(mode: Option<&str>) -> (verdict: Result<(), String>)
    ensures
        message_view(verdict) == validate_mode_spec(str_view(mode)),
{
    match mode {
        None => Ok(()),
        Some(text) => {
            if same_text(text, "output") || same_text(text, "execute") {
                Ok(())
            } else {
                let mut message = "Invalid mode '".to_owned();
                message.append(text);
                message.append("': must be output or execute");
                Err(message)
            }
        },
    }
}

/// The role of a poll that names none.
pub fn legacy_role() -> (role: TargetRole)
    ensures
        role == TargetRole::Legacy,
{
    TargetRole::Legacy
}

} // verus!
