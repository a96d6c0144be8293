//! Which Studio window a command goes to, and what is reported of the windows.

use crate::instances::{
    connected_ids, display_spec, fresh_poll, instance_display, is_connected, lists_connected,
    poll_age, StudioInstance,
};
use crate::binary64::NANOS_PER_SEC;
use crate::role::TargetRole;
use crate::state::AppState;
use crate::text::{
    decimal, decimal_spec, join, join_spec, reply_view, split_once, split_once_spec, str_view,
    strictly_sorted, text_less, texts,
};
use crate::timing::elapsed;
use vstd::prelude::*;

verus! {

/// What is known of the polls of one role of the window a command was addressed to.
pub open spec fn poll_status_spec(
    instances: Map<Seq<char>, StudioInstance>,
    instance: Option<Seq<char>>,
    role: TargetRole,
    now: u64,
) -> Seq<char> {
    match instance {
        None => "the command had no Studio instance attached"@,
        Some(id) => {
            let poll = if instances.contains_key(id) {
                instances[id].last_poll(role)
            } else {
                None
            };
            match poll {
                Some(at) => "last poll from the "@ + role.title_text() + " DataModel of "@ + display_spec(id)
                    + " was "@ + decimal_spec(poll_age(at, now) as nat) + "s ago"@,
                None => "the "@ + role.title_text() + " DataModel of "@ + display_spec(id)
                    + " has not connected yet"@,
            }
        },
    }
}

/// One line per window, each with a dash.
pub open spec fn bullets(ids: Seq<Seq<char>>) -> Seq<char> {
    join_spec(ids.map_values(|id: Seq<char>| "- "@ + display_spec(id)), "\n"@)
}

/// Writes one line per window, each with a dash.
pub fn bullet_list(ids: &Vec<String>) -> (text: String)
    ensures
        text@ == bullets(texts(ids@)),
{
    let mut lines: Vec<String> = Vec::new();
    let mut i: usize = 0;
    let ghost goal = texts(ids@).map_values(|id: Seq<char>| "- "@ + display_spec(id));
    while i < ids.len()
        invariant
            goal == texts(ids@).map_values(|id: Seq<char>| "- "@ + display_spec(id)),
            i <= ids.len(),
            texts(lines@) == goal.take(i as int),
        decreases ids.len() - i,
    {
        let ghost before = lines@;
        let mut line = "- ".to_owned();
        line.append(instance_display(ids[i].as_str()).as_str());
        lines.push(line);
        proof {
            assert(goal[i as int] == "- "@ + display_spec(ids@[i as int]@));
            assert(texts(lines@) =~= texts(before).push(line@));
            assert(goal.take(i + 1) =~= goal.take(i as int).push(goal[i as int]));
        }
        i = i + 1;
    }
    proof {
        assert(goal.take(ids.len() as int) == goal);
    }
    join(&lines, "\n")
}

/// The window that is meant where the caller has not selected one: the only connected one.
pub open spec fn auto_instance(connected: Seq<Seq<char>>) -> Result<Seq<char>, Seq<char>> {
    if connected.len() == 0 {
        Err("No Roblox Studio instance is connected. Make sure Studio is open with the MCP plugin enabled."@)
    } else if connected.len() == 1 {
        Ok(connected[0])
    } else {
        Err(
            "Multiple Roblox Studio instances are connected:\n"@ + bullets(connected)
                + "\nCall select_studio_instance with the place name or placeId to choose which one to operate on."@,
        )
    }
}

/// What is reported of one connected Studio window.
#[derive(Debug)]
pub struct InstanceSummary {
    pub id: String,
    pub name: String,
    pub place_id: String,
    pub connected_roles: Vec<String>,
    pub seconds_since_poll: u64,
}

/// The name part and the place part of an instance id; an id without a bar is all name.
pub open spec fn id_parts(id: Seq<char>) -> (Seq<char>, Seq<char>) {
    match split_once_spec(id, '|') {
        Some(parts) => parts,
        None => (Seq::empty(), id),
    }
}

/// A name in a list where a condition holds, an empty list otherwise.
pub open spec fn listed_if(condition: bool, name: Seq<char>) -> Seq<Seq<char>> {
    if condition {
        seq![name]
    } else {
        Seq::empty()
    }
}

/// The names of a window's connected roles, in order.
pub open spec fn connected_roles_spec(instance: StudioInstance, now: u64) -> Seq<Seq<char>> {
    listed_if(fresh_poll(instance.client, now), "client"@) + listed_if(
        fresh_poll(instance.edit, now),
        "edit"@,
    ) + listed_if(fresh_poll(instance.server, now), "server"@)
}

/// Whether a summary reports this window.
pub open spec fn summarizes(
    row: InstanceSummary,
    id: Seq<char>,
    instance: StudioInstance,
    now: u64,
) -> bool {
    &&& row.id@ == id
    &&& row.place_id@ == id_parts(id).0
    &&& row.name@ == id_parts(id).1
    &&& texts(row.connected_roles@) == connected_roles_spec(instance, now)
    &&& row.seconds_since_poll == match instance.seconds_since_poll_spec(now) {
        Some(seconds) => seconds,
        None => u64::MAX,
    }
}

fn connected_roles(instance: &StudioInstance, now: u64) -> (roles: Vec<String>)
    ensures
        texts(roles@) == connected_roles_spec(*instance, now),
{
    let mut roles: Vec<String> = Vec::new();
    if instance.role_fresh(TargetRole::Client, now) {
        roles.push("client".to_owned());
    }
    let ghost first = roles@;
    if instance.role_fresh(TargetRole::Edit, now) {
        roles.push("edit".to_owned());
    }
    let ghost second = roles@;
    if instance.role_fresh(TargetRole::Server, now) {
        roles.push("server".to_owned());
    }
    proof {
        assert(texts(first) =~= listed_if(fresh_poll(instance.client, now), "client"@));
        assert(texts(second) =~= texts(first) + listed_if(fresh_poll(instance.edit, now), "edit"@));
        assert(texts(roles@) =~= texts(second) + listed_if(fresh_poll(instance.server, now), "server"@));
    }
    roles
}

/// The names of the connected roles are in alphabetical order.
pub proof fn connected_roles_are_sorted(instance: StudioInstance, now: u64)
    ensures
        strictly_sorted(connected_roles_spec(instance, now)),
{
    reveal_strlit("client");
    reveal_strlit("edit");
    reveal_strlit("server");
    assert(text_less("client"@, "edit"@));
    assert(text_less("edit"@, "server"@));
    assert(text_less("client"@, "server"@));
}

impl<C> AppState<C> {
    /// Describes the polls of one role of the window a command was addressed to.
    pub fn poll_status(&self, instance: Option<&str>, role: TargetRole, now: u64) -> (text: String)
        requires
            self.wf(),
        ensures
            text@ == poll_status_spec(self@.instances, str_view(instance), role, now),
    {
        let instance = match instance {
            Some(instance) => instance,
            None => return "the command had no Studio instance attached".to_owned(),
        };
        let poll = match self.known_instance(instance) {
            Some(found) => found.poll_time(role),
            None => None,
        };
        match poll {
            Some(at) => {
                let mut text = "last poll from the ".to_owned();
                text.append(role.title());
                text.append(" DataModel of ");
                text.append(instance_display(instance).as_str());
                text.append(" was ");
                text.append(decimal((elapsed(now, at) / NANOS_PER_SEC) as u128).as_str());
                text.append("s ago");
                text
            },
            None => {
                let mut text = "the ".to_owned();
                text.append(role.title());
                text.append(" DataModel of ");
                text.append(instance_display(instance).as_str());
                text.append(" has not connected yet");
                text
            },
        }
    }

    /// Picks the Studio window to address when the caller has not selected one: unambiguous only
    /// when exactly one is connected.
    pub fn resolve_auto_instance(&self, now: u64) -> (instance: Result<String, String>)
        requires
            self.wf(),
        ensures
            reply_view(instance) == auto_instance(connected_ids(self@.instances, now)),
            lists_connected(self@.instances, now, connected_ids(self@.instances, now)),
    {
        let fresh = self.fresh_instance_ids(now);
        let ghost ids = texts(fresh@);
        if fresh.len() == 0 {
            return Err(
                "No Roblox Studio instance is connected. Make sure Studio is open with the MCP plugin enabled.".to_owned(),
            );
        }
        if fresh.len() == 1 {
            proof {
                assert(ids[0] == fresh@[0]@);
            }
            return Ok(fresh[0].clone());
        }
        let mut message = "Multiple Roblox Studio instances are connected:\n".to_owned();
        message.append(bullet_list(&fresh).as_str());
        message.append(
            "\nCall select_studio_instance with the place name or placeId to choose which one to operate on.",
        );
        Err(message)
    }

    /// Reports every connected Studio window, in the order of the ids: a window has a row while one
    /// of its roles has polled recently, and each row names at least one role.
    pub fn instance_summaries(&self, now: u64) -> (rows: Vec<InstanceSummary>)
        requires
            self.wf(),
        ensures
            ({
                let ids = connected_ids(self@.instances, now);
                &&& lists_connected(self@.instances, now, ids)
                &&& rows@.len() == ids.len()
                &&& forall|i: int|
                    0 <= i < ids.len() ==> summarizes(
                        #[trigger] rows@[i],
                        ids[i],
                        self@.instances[ids[i]],
                        now,
                    ) && rows@[i].connected_roles@.len() > 0
            }),
    {
        let ids = self.fresh_instance_ids(now);
        let mut rows: Vec<InstanceSummary> = Vec::new();
        let mut i: usize = 0;
        let ghost all = texts(ids@);
        while i < ids.len()
            invariant
                self.wf(),
                all == texts(ids@),
                lists_connected(self@.instances, now, all),
                i <= ids.len(),
                rows@.len() == i,
                forall|k: int|
                    0 <= k < i ==> summarizes(#[trigger] rows@[k], all[k], self@.instances[all[k]], now)
                        && rows@[k].connected_roles@.len() > 0,
            decreases ids.len() - i,
        {
            let id = ids[i].as_str();
            proof {
                assert(all[i as int] == id@);
                assert(all.contains(id@));
                assert(is_connected(self@.instances, id@, now));
            }
            if let Some(instance) = self.known_instance(id) {
                let (place_id, name) = match split_once(id, '|') {
                    Some((place_id, name)) => (place_id.to_owned(), name.to_owned()),
                    None => (String::new(), id.to_owned()),
                };
                let seconds: u64 = match instance.seconds_since_poll(now) {
                    Some(seconds) => seconds,
                    None => u64::MAX,
                };
                let roles = connected_roles(&instance, now);
                proof {
                    assert(texts(roles@).len() > 0);
                }
                rows.push(
                    InstanceSummary {
                        id: ids[i].clone(),
                        name,
                        place_id,
                        connected_roles: roles,
                        seconds_since_poll: seconds,
                    },
                );
            }
            i = i + 1;
        }
        rows
    }
}

} // verus!
