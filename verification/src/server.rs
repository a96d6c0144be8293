//! One MCP client's view of the router: which Studio window it works on, and how its tool calls find
//! their DataModel.

use crate::instances::{
    connected_ids, display_spec, instance_display, is_connected, role_is_fresh, StudioInstance,
};
use crate::role::TargetRole;
use crate::routing::{auto_instance, bullet_list, bullets, InstanceSummary};
use crate::state::AppState;
use crate::text::{
    as_deref, contains, contains_text, copy_text, debug_text, eq_ignore_ascii_case, lowercase,
    quoted, reply_view, same_ignoring_ascii_case, same_text, split_once, split_once_spec,
    str_view, string_view, texts, to_lowercase, trim, trim_spec,
};
use crate::tools::{GetStudioMode, ToolArgumentValues, ToolPlan};
use vstd::prelude::*;

verus! {

/// What a tool call is answered.
#[derive(Debug)]
pub enum ToolReply {
    Success { text: String },
    Error { text: String },
}

/// The answer that a result makes.
pub open spec fn replies(reply: ToolReply, result: Result<Seq<char>, Seq<char>>) -> bool {
    match result {
        Ok(text) => reply matches ToolReply::Success { text: t } && t@ == text,
        Err(text) => reply matches ToolReply::Error { text: t } && t@ == text,
    }
}

/// Turns a result into the answer to a tool call.
pub fn tool_reply(result: Result<String, String>) -> (reply: ToolReply)
    ensures
        replies(reply, reply_view(result)),
{
    match result {
        Ok(text) => ToolReply::Success { text },
        Err(text) => ToolReply::Error { text },
    }
}

/// A result that may name a window, taken by the characters.
pub open spec fn window_view(result: Result<Option<String>, String>) -> Result<
    Option<Seq<char>>,
    Seq<char>,
> {
    match result {
        Ok(instance) => Ok(string_view(instance)),
        Err(message) => Err(message@),
    }
}

/// The window a command is addressed to: the selected one if it is still connected, otherwise the
/// single connected one. Where no window is known the selection stands as it is, and a server that
/// owns the port decides.
pub open spec fn resolve_spec(
    instances: Map<Seq<char>, StudioInstance>,
    selected: Option<Seq<char>>,
    now: u64,
) -> Result<Option<Seq<char>>, Seq<char>> {
    if instances.is_empty() {
        Ok(selected)
    } else if selected matches Some(id) && is_connected(instances, id, now) {
        Ok(selected)
    } else {
        match auto_instance(connected_ids(instances, now)) {
            Ok(id) => Ok(Some(id)),
            Err(message) => Err(message),
        }
    }
}

/// Whether a window of a report is connected.
pub open spec fn row_connected(row: InstanceSummary) -> bool {
    row.connected_roles@.len() > 0
}

/// Whether a window of a report matches a query, given its name and the query in lower case.
pub open spec fn row_matches_lowered(
    row: InstanceSummary,
    lowered_name: Seq<char>,
    query: Seq<char>,
    lowered_query: Seq<char>,
) -> bool {
    ||| row.id@ == query
    ||| row.place_id@ == query
    ||| contains_text(lowered_name, lowered_query)
}

/// Whether a window of a report matches a query: by its full id, its place id, or a part of its name
/// without regard to case.
pub open spec fn row_matches(row: InstanceSummary, query: Seq<char>) -> bool {
    row_matches_lowered(row, lowercase(row.name@), query, lowercase(query))
}

/// The connected windows of a report.
pub open spec fn connected_rows(rows: Seq<InstanceSummary>) -> Seq<InstanceSummary> {
    rows.filter(|row: InstanceSummary| row_connected(row))
}

/// The connected windows of a report that match a query.
pub open spec fn matching_rows(rows: Seq<InstanceSummary>, query: Seq<char>) -> Seq<InstanceSummary> {
    rows.filter(|row: InstanceSummary| row_connected(row) && row_matches(row, query))
}

/// The ids of the windows of a report.
pub open spec fn row_ids(rows: Seq<InstanceSummary>) -> Seq<Seq<char>> {
    rows.map_values(|row: InstanceSummary| row.id@)
}

/// Whether a request clears the selection: nothing but white space, or `auto` in any case.
pub open spec fn clears(request: Seq<char>) -> bool {
    let query = trim_spec(request);
    query.len() == 0 || same_ignoring_ascii_case(query, "auto"@)
}

/// The window that a query picks, with the answer to the request, or the reason why it picks none:
/// `found` are the connected windows that match.
pub open spec fn match_spec(quoted_query: Seq<char>, connected: Seq<Seq<char>>, found: Seq<Seq<char>>) -> Result<
    (Seq<char>, Seq<char>),
    Seq<char>,
> {
    if found.len() == 1 {
        Ok((found[0], "Now operating on Studio instance: "@ + display_spec(found[0])))
    } else if found.len() == 0 {
        Err(
            "No connected Studio instance matches "@ + quoted_query + ". Connected instances:\n"@ + (
            if connected.len() == 0 {
                "(none)"@
            } else {
                bullets(connected)
            }),
        )
    } else {
        Err(
            quoted_query + " matches more than one Studio instance:\n"@ + bullets(found)
                + "\nBe more specific (use the placeId or full id)."@,
        )
    }
}

/// The new selection and the answer to a request to select a window.
pub open spec fn select_spec(
    selected: Option<Seq<char>>,
    request: Seq<char>,
    rows: Seq<InstanceSummary>,
) -> (Option<Seq<char>>, Result<Seq<char>, Seq<char>>) {
    let query = trim_spec(request);
    if clears(request) {
        (
            None,
            Ok("Selection cleared: the single connected Studio instance will be used automatically."@),
        )
    } else {
        match match_spec(
            debug_text(query),
            row_ids(connected_rows(rows)),
            row_ids(matching_rows(rows, query)),
        ) {
            Ok((id, text)) => (Some(id), Ok(text)),
            Err(text) => (selected, Err(text)),
        }
    }
}

/// A window with the answer that goes with it, taken by the characters.
pub open spec fn match_view(result: Result<(String, String), String>) -> Result<
    (Seq<char>, Seq<char>),
    Seq<char>,
> {
    match result {
        Ok((id, text)) => Ok((id@, text@)),
        Err(text) => Err(text@),
    }
}

/// Picks the window that a query found, and writes the answer to the request.
pub fn choose_match(quoted_query: &str, connected: &Vec<String>, found: &Vec<String>) -> (result: Result<
    (String, String),
    String,
>)
    ensures
        match_view(result) == match_spec(quoted_query@, texts(connected@), texts(found@)),
{
    if found.len() == 1 {
        let chosen = found[0].clone();
        let mut text = "Now operating on Studio instance: ".to_owned();
        text.append(instance_display(chosen.as_str()).as_str());
        proof {
            assert(texts(found@)[0] == chosen@);
        }
        Ok((chosen, text))
    } else if found.len() == 0 {
        let mut text = "No connected Studio instance matches ".to_owned();
        text.append(quoted_query);
        text.append(". Connected instances:\n");
        if connected.len() == 0 {
            text.append("(none)");
        } else {
            text.append(bullet_list(connected).as_str());
        }
        Err(text)
    } else {
        let mut text = quoted_query.to_owned();
        text.append(" matches more than one Studio instance:\n");
        text.append(bullet_list(found).as_str());
        text.append("\nBe more specific (use the placeId or full id).");
        Err(text)
    }
}

/// Whether a request clears the selection, so that no window has to be looked up for it.
pub fn clears_selection(request: &str) -> (yes: bool)
    ensures
        yes == clears(request@),
{
    let query = trim(request);
    query.is_empty() || eq_ignore_ascii_case(query, "auto")
}

/// One window of a listing.
#[derive(Debug)]
pub struct ListedInstance {
    pub summary: InstanceSummary,
    pub selected: bool,
}

/// The answer to a request to list the windows.
#[derive(Debug)]
pub struct InstanceListing {
    pub instances: Vec<ListedInstance>,
    pub selection: Option<String>,
    pub note: String,
}

/// What a request for window control asks for.
#[derive(Debug)]
pub enum WindowRequest {
    /// Report the open Studio windows.
    Status,
    /// Bring the window that the hint picks to the front.
    Restore { hint: Option<String> },
}

/// The place-name part of an instance id, where there is one: all that follows the first bar.
pub open spec fn title_hint(instance: Option<Seq<char>>) -> Option<Seq<char>> {
    match instance {
        Some(id) => match split_once_spec(id, '|') {
            Some((_, name)) => if name.len() == 0 {
                None
            } else {
                Some(name)
            },
            None => None,
        },
        None => None,
    }
}

/// The role of the DataModel of the current session.
pub open spec fn play_aware_role_spec(mode: Seq<char>, run_server_role: TargetRole) -> TargetRole {
    if trim_spec(mode) == "start_play"@ {
        TargetRole::Client
    } else if trim_spec(mode) == "run_server"@ {
        run_server_role
    } else {
        TargetRole::Edit
    }
}

/// Picks the DataModel that matches the current session: the client during play mode,
/// `run_server_role` in run mode, edit otherwise.
pub fn play_aware_role(mode: &str, run_server_role: TargetRole) -> (role: TargetRole)
    ensures
        role == play_aware_role_spec(mode@, run_server_role),
{
    let mode = trim(mode);
    if same_text(mode, "start_play") {
        TargetRole::Client
    } else if same_text(mode, "run_server") {
        run_server_role
    } else {
        TargetRole::Edit
    }
}

/// The role of the DataModel that owns the rendered viewport: the client during play, the server in
/// run mode, edit otherwise. The mode only tracks sessions that were started by a tool, so a stopped
/// mode gives way to the polls of a session that the user started.
pub open spec fn rendering_role_spec(
    instances: Map<Seq<char>, StudioInstance>,
    mode: Seq<char>,
    instance: Option<Seq<char>>,
    now: u64,
) -> TargetRole {
    let id = match instance {
        Some(id) => id,
        None => "default"@,
    };
    if trim_spec(mode) == "start_play"@ {
        TargetRole::Client
    } else if trim_spec(mode) == "run_server"@ {
        TargetRole::Server
    } else if role_is_fresh(instances, id, TargetRole::Client, now) {
        TargetRole::Client
    } else if role_is_fresh(instances, id, TargetRole::Server, now) {
        TargetRole::Server
    } else {
        TargetRole::Edit
    }
}

/// A tool call whose role depends on the current Studio mode.
pub struct PendingRole {
    pub args: ToolArgumentValues,
    pub instance: Option<String>,
    pub rule: RoleRule,
}

/// How the Studio mode picks the role.
#[derive(Clone, Copy, Debug, PartialEq, Eq)]
pub enum RoleRule {
    PlayAware { run_server_role: TargetRole },
    Rendering,
}

/// The next step of a tool call.
pub enum ToolStep {
    /// The call is answered.
    Reply { reply: ToolReply },
    /// The Studio mode has to be asked for: `GetStudioMode` on the edit DataModel of the window.
    AskMode { pending: PendingRole },
    /// The command is run on a role of a window, and its result answers the call.
    Execute { args: ToolArgumentValues, target: TargetRole, instance: Option<String> },
}

/// Whether a tool call is answered with this error.
pub open spec fn refused(step: ToolStep, message: Seq<char>) -> bool {
    step matches ToolStep::Reply { reply } && replies(reply, Err(message))
}

/// Whether a tool call's next step follows from its plan and from the resolved window.
pub open spec fn follows_plan(
    step: ToolStep,
    plan: ToolPlan,
    resolved: Result<Option<String>, String>,
) -> bool {
    match (plan, resolved) {
        (ToolPlan::Refuse { message }, _) => refused(step, message@),
        (_, Err(error)) => refused(step, error@),
        (ToolPlan::RefuseResolved { message }, Ok(_)) => refused(step, message@),
        (ToolPlan::Run { args, target }, Ok(instance)) => step == (ToolStep::Execute {
            args,
            target,
            instance,
        }),
        (ToolPlan::PlayAware { args, run_server_role }, Ok(instance)) => step == (ToolStep::AskMode {
            pending: PendingRole { args, instance, rule: RoleRule::PlayAware { run_server_role } },
        }),
        (ToolPlan::Rendering { args }, Ok(instance)) => step == (ToolStep::AskMode {
            pending: PendingRole { args, instance, rule: RoleRule::Rendering },
        }),
    }
}

/// The first step of a tool call, once it is known which window it goes to.
pub fn begin_tool(plan: ToolPlan, resolved: Result<Option<String>, String>) -> (step: ToolStep)
    ensures
        follows_plan(step, plan, resolved),
{
    match plan {
        ToolPlan::Refuse { message } => ToolStep::Reply { reply: ToolReply::Error { text: message } },
        ToolPlan::RefuseResolved { message } => match resolved {
            Ok(_) => ToolStep::Reply { reply: ToolReply::Error { text: message } },
            Err(error) => ToolStep::Reply { reply: ToolReply::Error { text: error } },
        },
        ToolPlan::Run { args, target } => match resolved {
            Ok(instance) => ToolStep::Execute { args, target, instance },
            Err(error) => ToolStep::Reply { reply: ToolReply::Error { text: error } },
        },
        ToolPlan::PlayAware { args, run_server_role } => match resolved {
            Ok(instance) => ToolStep::AskMode {
                pending: PendingRole { args, instance, rule: RoleRule::PlayAware { run_server_role } },
            },
            Err(error) => ToolStep::Reply { reply: ToolReply::Error { text: error } },
        },
        ToolPlan::Rendering { args } => match resolved {
            Ok(instance) => ToolStep::AskMode {
                pending: PendingRole { args, instance, rule: RoleRule::Rendering },
            },
            Err(error) => ToolStep::Reply { reply: ToolReply::Error { text: error } },
        },
    }
}

/// The command that asks a window for its Studio mode.
pub fn mode_query() -> (args: ToolArgumentValues)
    ensures
        args == ToolArgumentValues::GetStudioMode(GetStudioMode {  }),
{
    ToolArgumentValues::GetStudioMode(GetStudioMode {  })
}

/// The router together with what one MCP client has selected. The selection is per server process,
/// so different MCP clients can drive different Studio windows.
#[verifier::reject_recursive_types(C)]
pub struct RBXStudioServer<C> {
    pub state: AppState<C>,
    pub selected_instance: Option<String>,
}

/// Whether a server took a request to select a window and gave this reply: nothing but its selection
/// changes.
pub open spec fn selects<C>(
    before: RBXStudioServer<C>,
    after: RBXStudioServer<C>,
    request: Seq<char>,
    rows: Seq<InstanceSummary>,
    reply: Result<Seq<char>, Seq<char>>,
) -> bool {
    &&& after.state == before.state
    &&& (string_view(after.selected_instance), reply) == select_spec(
        string_view(before.selected_instance),
        request,
        rows,
    )
}

impl<C> RBXStudioServer<C> {
    /// A server without a selection.
    pub fn new(state: AppState<C>) -> (server: Self)
        ensures
            server.state == state,
            server.selected_instance is None,
    {
        RBXStudioServer { state, selected_instance: None }
    }

    /// Decides which Studio window to address: the explicitly selected one if it is still connected,
    /// otherwise the single connected one. A server that knows no window passes its selection on,
    /// and the port owner resolves it.
    pub fn resolve_instance(&self, now: u64) -> (instance: Result<Option<String>, String>)
        requires
            self.state.wf(),
        ensures
            window_view(instance) == resolve_spec(
                self.state@.instances,
                string_view(self.selected_instance),
                now,
            ),
    {
        if self.state.knows_no_instance() {
            return Ok(copy_text(&self.selected_instance));
        }
        if let Some(selected) = &self.selected_instance {
            if self.state.any_role_fresh(selected.as_str(), now) {
                return Ok(Some(selected.clone()));
            }
        }
        match self.state.resolve_auto_instance(now) {
            Ok(instance) => Ok(Some(instance)),
            Err(message) => Err(message),
        }
    }

    /// Lists the windows of a report, with the selected one marked.
    pub fn list_studio_instances(&self, rows: Vec<InstanceSummary>) -> (listing: InstanceListing)
        ensures
            listing.instances@.len() == rows@.len(),
            forall|i: int|
                0 <= i < rows@.len() ==> {
                    &&& (#[trigger] listing.instances@[i]).summary == rows@[i]
                    &&& listing.instances@[i].selected == (string_view(self.selected_instance) == Some(
                        rows@[i].id@,
                    ))
                },
            match self.selected_instance {
                Some(id) => string_view(listing.selection) == Some(display_spec(id@)),
                None => listing.selection is None,
            },
            listing.note@
                == "A single connected instance is used automatically; otherwise pick one with select_studio_instance (by name or placeId)."@,
    {
        let mut rest = rows;
        let mut instances: Vec<ListedInstance> = Vec::new();
        let ghost all = rows@;
        proof {
            assert(all.skip(0) == all);
        }
        while rest.len() > 0
            invariant
                instances@.len() <= all.len(),
                rest@ == all.skip(instances@.len() as int),
                forall|i: int|
                    0 <= i < instances@.len() ==> {
                        &&& (#[trigger] instances@[i]).summary == all[i]
                        &&& instances@[i].selected == (string_view(self.selected_instance) == Some(
                            all[i].id@,
                        ))
                    },
            decreases rest.len(),
        {
            let ghost done = instances@.len() as int;
            let summary = rest.remove(0);
            proof {
                assert(summary == all[done]);
                assert(rest@ == all.skip(done + 1));
            }
            let selected = match &self.selected_instance {
                Some(id) => same_text(id.as_str(), summary.id.as_str()),
                None => false,
            };
            instances.push(ListedInstance { summary, selected });
        }
        let selection = match &self.selected_instance {
            Some(id) => Some(instance_display(id.as_str())),
            None => None,
        };
        InstanceListing {
            instances,
            selection,
            note: "A single connected instance is used automatically; otherwise pick one with select_studio_instance (by name or placeId).".to_owned(),
        }
    }

    /// Selects the connected window that matches a place name, a place id or an instance id, or
    /// clears the selection. A request that matches no window, or several, changes nothing.
    pub fn select_studio_instance(&mut self, request: &str, rows: &Vec<InstanceSummary>) -> (reply: Result<
        String,
        String,
    >)
        ensures
            selects(*old(self), *final(self), request@, rows@, reply_view(reply)),
    {
        let query = trim(request);
        if clears_selection(request) {
            self.selected_instance = None;
            return Ok(
                "Selection cleared: the single connected Studio instance will be used automatically.".to_owned(),
            );
        }
        let (connected, found) = sift(rows, query);
        match choose_match(quoted(query).as_str(), &connected, &found) {
            Ok((id, text)) => {
                self.selected_instance = Some(id);
                Ok(text)
            },
            Err(text) => Err(text),
        }
    }

    /// The window-title hint for the current selection: the place-name part of the instance id.
    pub fn window_hint(&self, now: u64) -> (hint: Option<String>)
        requires
            self.state.wf(),
        ensures
            string_view(hint) == match resolve_spec(
                self.state@.instances,
                string_view(self.selected_instance),
                now,
            ) {
                Ok(instance) => title_hint(instance),
                Err(_) => None,
            },
    {
        let instance = match self.resolve_instance(now) {
            Ok(Some(instance)) => instance,
            _ => return None,
        };
        match split_once(instance.as_str(), '|') {
            Some((_, name)) => if name.is_empty() {
                None
            } else {
                Some(name.to_owned())
            },
            None => None,
        }
    }

    /// Reads a request for window control. The hint is the title that the request names, or else
    /// that of the current selection.
    pub fn studio_window(&self, action: &str, title: Option<String>, now: u64) -> (request: Result<
        WindowRequest,
        String,
    >)
        requires
            self.state.wf(),
        ensures
            if action@ == "status"@ {
                request matches Ok(WindowRequest::Status)
            } else if action@ == "restore"@ || action@ == "focus"@ {
                request matches Ok(WindowRequest::Restore { hint }) && string_view(hint) == match title {
                    Some(title) => Some(title@),
                    None => match resolve_spec(
                        self.state@.instances,
                        string_view(self.selected_instance),
                        now,
                    ) {
                        Ok(instance) => title_hint(instance),
                        Err(_) => None,
                    },
                }
            } else {
                request matches Err(message) && message@ == "Invalid action '"@ + action@
                    + "': must be status or restore"@
            },
    {
        if same_text(action, "status") {
            return Ok(WindowRequest::Status);
        }
        if same_text(action, "restore") || same_text(action, "focus") {
            let hint = match title {
                Some(title) => Some(title),
                None => self.window_hint(now),
            };
            return Ok(WindowRequest::Restore { hint });
        }
        let mut message = "Invalid action '".to_owned();
        message.append(action);
        message.append("': must be status or restore");
        Err(message)
    }

    /// The DataModel that owns the rendered viewport, and the mode as it is reported.
    pub fn rendering_role(&self, mode: &str, instance: Option<&str>, now: u64) -> (role: (String, TargetRole))
        requires
            self.state.wf(),
        ensures
            role.0@ == trim_spec(mode@),
            role.1 == rendering_role_spec(self.state@.instances, mode@, str_view(instance), now),
            trim_spec(mode@) == "start_play"@ ==> role.1 == TargetRole::Client,
            trim_spec(mode@) == "run_server"@ ==> role.1 == TargetRole::Server,
    {
        proof {
            reveal_strlit("start_play");
            reveal_strlit("run_server");
            assert("start_play"@[0] != "run_server"@[0]);
        }
        let mode = trim(mode);
        let known = match instance {
            Some(instance) => instance,
            None => "default",
        };
        let role = if same_text(mode, "start_play") {
            TargetRole::Client
        } else if same_text(mode, "run_server") {
            TargetRole::Server
        } else if self.state.role_fresh(known, TargetRole::Client, now) {
            TargetRole::Client
        } else if self.state.role_fresh(known, TargetRole::Server, now) {
            TargetRole::Server
        } else {
            TargetRole::Edit
        };
        (mode.to_owned(), role)
    }

    /// The step of a tool call that follows the answer to its question for the Studio mode.
    pub fn mode_answered(&self, pending: PendingRole, mode: Result<String, String>, now: u64) -> (step: ToolStep)
        requires
            self.state.wf(),
        ensures
            match mode {
                Err(message) => refused(step, message@),
                Ok(mode) => step == (ToolStep::Execute {
                    args: pending.args,
                    target: match pending.rule {
                        RoleRule::PlayAware { run_server_role } => play_aware_role_spec(
                            mode@,
                            run_server_role,
                        ),
                        RoleRule::Rendering => rendering_role_spec(
                            self.state@.instances,
                            mode@,
                            string_view(pending.instance),
                            now,
                        ),
                    },
                    instance: pending.instance,
                }),
            },
    {
        match mode {
            Err(text) => ToolStep::Reply { reply: ToolReply::Error { text } },
            Ok(mode) => {
                let target = match pending.rule {
                    RoleRule::PlayAware { run_server_role } => play_aware_role(
                        mode.as_str(),
                        run_server_role,
                    ),
                    RoleRule::Rendering => self.rendering_role(
                        mode.as_str(),
                        as_deref(&pending.instance),
                        now,
                    ).1,
                };
                ToolStep::Execute { args: pending.args, target, instance: pending.instance }
            },
        }
    }
}

/// Whether a window of a report matches a query, given its name and the query in lower case.
pub fn matches_lowered(row: &InstanceSummary, lowered_name: &str, query: &str, lowered_query: &str) -> (yes: bool)
    ensures
        yes == row_matches_lowered(*row, lowered_name@, query@, lowered_query@),
{
    same_text(row.id.as_str(), query) || same_text(row.place_id.as_str(), query) || contains(
        lowered_name,
        lowered_query,
    )
}

/// The ids of the connected windows of a report, and of those that match a query.
fn sift(rows: &Vec<InstanceSummary>, query: &str) -> (ids: (Vec<String>, Vec<String>))
    ensures
        texts(ids.0@) == row_ids(connected_rows(rows@)),
        texts(ids.1@) == row_ids(matching_rows(rows@, query@)),
{
    let lowered = to_lowercase(query);
    let mut connected: Vec<String> = Vec::new();
    let mut found: Vec<String> = Vec::new();
    let mut i: usize = 0;
    proof {
        reveal(Seq::filter);
        assert(texts(connected@) =~= row_ids(connected_rows(rows@.take(0))));
        assert(texts(found@) =~= row_ids(matching_rows(rows@.take(0), query@)));
    }
    while i < rows.len()
        invariant
            lowered@ == lowercase(query@),
            i <= rows.len(),
            texts(connected@) == row_ids(connected_rows(rows@.take(i as int))),
            texts(found@) == row_ids(matching_rows(rows@.take(i as int), query@)),
        decreases rows.len() - i,
    {
        let row = &rows[i];
        let ghost seen = rows@.take(i as int);
        let ghost next = rows@.take(i + 1);
        let ghost c = connected@;
        let ghost f = found@;
        proof {
            reveal(Seq::filter);
            assert(next.drop_last() == seen);
            assert(next.last() == *row);
        }
        if row.connected_roles.len() > 0 {
            connected.push(row.id.clone());
            proof {
                assert(connected_rows(next) == connected_rows(seen).push(*row));
                assert(texts(connected@) =~= texts(c).push(row.id@));
                assert(row_ids(connected_rows(next)) =~= row_ids(connected_rows(seen)).push(row.id@));
            }
            let name = to_lowercase(row.name.as_str());
            if matches_lowered(row, name.as_str(), query, lowered.as_str()) {
                found.push(row.id.clone());
                proof {
                    assert(matching_rows(next, query@) == matching_rows(seen, query@).push(*row));
                    assert(texts(found@) =~= texts(f).push(row.id@));
                    assert(row_ids(matching_rows(next, query@)) =~= row_ids(
                        matching_rows(seen, query@),
                    ).push(row.id@));
                }
            }
        }
        i = i + 1;
    }
    proof {
        assert(rows@.take(rows.len() as int) == rows@);
    }
    (connected, found)
}

} // verus!
