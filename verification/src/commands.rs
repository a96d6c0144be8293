//! Commands, and the messages that the plugin and other servers exchange about them.

use crate::role::TargetRole;
use crate::text::copy_text;
use crate::tools::ToolArgumentValues;
use std::sync::Arc;
use vstd::prelude::*;

verus! {

/// A command on its way to one role of one Studio window.
///
/// `instance` is the window (`placeId|placeName`) the command is addressed to; without one the
/// server that owns the port picks the window.
#[derive(Debug)]
pub struct ToolArguments {
    pub args: Arc<ToolArgumentValues>,
    pub id: Option<u128>,
    pub target: TargetRole,
    pub instance: Option<String>,
}

/// What came of a command.
#[derive(Debug)]
pub struct RunCommandResponse {
    pub success: bool,
    pub response: String,
    pub id: u128,
}

/// The plugin's word that a command has reached it.
#[derive(Debug)]
pub struct AckRequest {
    pub id: u128,
}

/// Whether a number is a version 4 UUID: its version and variant bits are set accordingly.
pub open spec fn is_random_uuid(id: u128) -> bool {
    &&& (id / 0x1000_0000_0000_0000_0000) % 16 == 4
    &&& (id / 0x4000_0000_0000_0000) % 4 == 2
}

/// `uuid::Uuid::new_v4`, as a number: random but for its version and variant bits. The bits come
/// from the operating system's source of randomness, which has to be available.
#[verifier::external_body]
pub(crate) fn new_uuid() -> (id: u128)
    ensures
        is_random_uuid(id),
{
    uuid::Uuid::new_v4().as_u128()
}

/// `Arc::clone` of the standard library: another pointer to the same value.
#[verifier::external_body]
pub(crate) fn share(args: &Arc<ToolArgumentValues>) -> (shared: Arc<ToolArgumentValues>)
    ensures
        shared == *args,
{
    Arc::clone(args)
}

impl Clone for ToolArguments {
    fn clone(&self) -> (copy: Self)
        ensures
            copy == *self,
    {
        ToolArguments {
            args: share(&self.args),
            id: self.id,
            target: self.target,
            instance: copy_text(&self.instance),
        }
    }
}

impl ToolArguments {
    /// A command with an id of its own.
    pub fn new(args: Arc<ToolArgumentValues>, target: TargetRole, instance: Option<String>) -> (command: (
        Self,
        u128,
    ))
        ensures
            is_random_uuid(command.1),
            command.0 == (ToolArguments { args, id: Some(command.1), target, instance }),
    {
        ToolArguments { args, id: None, target, instance }.with_id()
    }

    /// The same command under a new id.
    pub fn with_id(self) -> (command: (Self, u128))
        ensures
            is_random_uuid(command.1),
            command.0 == (ToolArguments { id: Some(command.1), ..self }),
    {
        let id: u128 = new_uuid();
        (self.with_given_id(id), id)
    }

    /// The same command under a given id.
    pub fn with_given_id(self, id: u128) -> (command: Self)
        ensures
            command == (ToolArguments { id: Some(id), ..self }),
    {
        ToolArguments { args: self.args, id: Some(id), target: self.target, instance: self.instance }
    }
}

} // verus!
