//! What holds of the server's operations and of the tools, whatever they are called with: how the
//! result of a call relates to its arguments.

use crate::instances::{connected_ids, display_spec, is_connected, role_is_fresh};
use crate::role::{parse_context, validate_mode, TargetRole};
use crate::routing::{auto_instance, InstanceSummary};
use crate::seconds::steps_nanos;
use crate::server::{
    begin_tool, clears_selection, mode_query, play_aware_role, tool_reply, InstanceListing,
    PendingRole, RBXStudioServer, RoleRule, ToolReply, ToolStep, WindowRequest,
};
use crate::state::AppState;
use crate::text::{contains_text, string_view, trim_spec};
use crate::text_laws::found_text_stands_between;
use crate::timing::{elapsed, execution_timeout, execution_timeout_spec, whole_seconds};
use crate::tools::{
    click_object, click_ui, control_character, find_ui, get_console_output, get_errors,
    get_studio_mode, get_ui_tree, input_sequence, insert_model, list_prompts, mouse_drag, mouse_move,
    run_code, run_code_from_file, run_script_in_play_mode, send_key, send_text, set_camera,
    start_stop_play, wait_for, ClickObject, ClickUi, ControlCharacter, FindUi, GetConsoleOutput,
    GetErrors, GetStudioMode, GetUiTree, InputSequence, InsertModel, ListPrompts, MouseDrag,
    MouseMove, RunCode, RunCodeFromFile, RunScriptInPlayMode, SendKey, SendText, SetCamera,
    StartStopPlay, ToolArgumentValues, ToolPlan, WaitFor,
};
use crate::window_laws::{
    auto_counts_in_any_case, contexts_name_data_models, is_auto, modes_are_output_and_execute,
    names_row, refused_requests_are_told_the_windows, the_only_named_window_is_selected,
    the_selection_can_be_cleared, the_session_decides_what_renders, titles_are_found_by_name,
    unknown_windows_are_not_selected,
};
use vstd::prelude::*;

verus! {

/// A tool that has no time limit of its own is waited for five minutes. A script in play mode has the
/// seconds that it asks for, or a hundred, and a minute more; a capture has half a minute, and reading
/// its pixels a minute and a half.
pub proof fn tools_have_their_time(args: &ToolArgumentValues, nanos: u128)
    requires
        call_ensures(execution_timeout, (args,), nanos),
    ensures
        args is RunCode || args is InsertModel || args is GetConsoleOutput || args is GetErrors
            || args is StartStopPlay || args is GetStudioMode || args is GetUiTree || args is ClickUi
            || args is FindUi || args is ListPrompts || args is MouseMove || args is ClickObject
            || args is SetCamera || args is SendText ==> nanos == 300 * 1_000_000_000,
        args matches ToolArgumentValues::RunScriptInPlayMode(script) ==> match script.timeout {
            Some(seconds) => nanos == (seconds + 60) * 1_000_000_000,
            None => nanos == 160 * 1_000_000_000,
        },
        args is TakeScreenshotCapture ==> nanos == 30 * 1_000_000_000,
        args is TakeScreenshotRead ==> nanos == 90 * 1_000_000_000,
        args matches ToolArgumentValues::SendKey(key) ==> 30_000_000_000 <= nanos <= 60_000_000_000 && (
        key.duration is None ==> nanos == 30_000_000_000),
        args matches ToolArgumentValues::ControlCharacter(control) ==> 30_000_000_000 <= nanos
            <= 90_000_000_000 && (control.duration is None ==> nanos == 45_000_000_000),
        args matches ToolArgumentValues::WaitFor(wait) ==> 60_100_000_000 <= nanos <= 660_000_000_000 && (
        wait.timeout is None ==> nanos == 90_000_000_000),
        args matches ToolArgumentValues::MouseDrag(drag) ==> 30_050_000_000 <= nanos <= 40_000_000_000 && (
        drag.duration is None ==> nanos == 30_500_000_000),
        args matches ToolArgumentValues::InputSequence(sequence) ==> nanos == steps_nanos(sequence.steps@)
            + 60_000_000_000,
        nanos == execution_timeout_spec(*args),
{
}

/// Seconds are counted in full, and nothing has happened in the future.
pub proof fn full_seconds_are_counted(nanos: u128, seconds: u128, now: u64, at: u64, past: u64)
    requires
        call_ensures(whole_seconds, (nanos,), seconds),
        call_ensures(elapsed, (now, at), past),
    ensures
        seconds * 1_000_000_000 <= nanos < (seconds + 1) * 1_000_000_000,
        at <= now ==> at + past == now,
        at > now ==> past == 0,
{
}

/// A context is one of the three DataModels by its name, and without one it is the edit DataModel; a
/// mode is `output`, `execute` or none. Anything else is refused by its name.
pub proof fn contexts_and_modes_are_words(
    context: &str,
    target: Result<TargetRole, String>,
    unnamed: Result<TargetRole, String>,
    mode: &str,
    verdict: Result<(), String>,
    unset: Result<(), String>,
)
    requires
        call_ensures(parse_context, (Some(context),), target),
        call_ensures(parse_context, (None,), unnamed),
        call_ensures(validate_mode, (Some(mode),), verdict),
        call_ensures(validate_mode, (None,), unset),
    ensures
        unnamed matches Ok(role) && role == TargetRole::Edit,
        context@ == "edit"@ ==> (target matches Ok(role) && role == TargetRole::Edit),
        context@ == "server"@ ==> (target matches Ok(role) && role == TargetRole::Server),
        context@ == "client"@ ==> (target matches Ok(role) && role == TargetRole::Client),
        target is Err <==> context@ != "edit"@ && context@ != "server"@ && context@ != "client"@,
        target matches Err(message) ==> contains_text(message@, context@),
        unset is Ok,
        verdict is Ok <==> mode@ == "output"@ || mode@ == "execute"@,
        verdict matches Err(message) ==> contains_text(message@, mode@),
{
    lemma_words();
    contexts_name_data_models(context@);
    modes_are_output_and_execute(mode@);
}

proof fn lemma_words()
    ensures
        "edit"@ == seq!['e', 'd', 'i', 't'],
        "server"@ == seq!['s', 'e', 'r', 'v', 'e', 'r'],
        "client"@ == seq!['c', 'l', 'i', 'e', 'n', 't'],
        "output"@ == seq!['o', 'u', 't', 'p', 'u', 't'],
        "execute"@ == seq!['e', 'x', 'e', 'c', 'u', 't', 'e'],
        "edit"@ != "server"@,
        "edit"@ != "client"@,
        "server"@ != "client"@,
{
    reveal_strlit("edit");
    reveal_strlit("server");
    reveal_strlit("client");
    reveal_strlit("output");
    reveal_strlit("execute");
    assert("edit"@ =~= seq!['e', 'd', 'i', 't']);
    assert("server"@ =~= seq!['s', 'e', 'r', 'v', 'e', 'r']);
    assert("client"@ =~= seq!['c', 'l', 'i', 'e', 'n', 't']);
    assert("output"@ =~= seq!['o', 'u', 't', 'p', 'u', 't']);
    assert("execute"@ =~= seq!['e', 'x', 'e', 'c', 'u', 't', 'e']);
    assert("edit"@.len() == 4 && "server"@.len() == 6 && "client"@.len() == 6);
    assert("server"@[0] != "client"@[0]);
}

/// While a tool's play session runs, the client renders, and while a tool's run session runs, the
/// server does, whatever has polled. Otherwise the client renders where it has polled within three
/// seconds, or else the server where it has, or else the edit DataModel.
pub proof fn the_rendering_data_model_is_found<C>(
    server: &RBXStudioServer<C>,
    mode: &str,
    window: &str,
    now: u64,
    role: (String, TargetRole),
)
    requires
        call_ensures(RBXStudioServer::<C>::rendering_role, (server, mode, Some(window), now), role),
    ensures
        ({
            let instances = server.state@.instances;
            let known = instances.contains_key(window@);
            let client = known && (instances[window@].client matches Some(at) && now < at + 3_000_000_000);
            let server = known && (instances[window@].server matches Some(at) && now < at + 3_000_000_000);
            let play = trim_spec(mode@) == "start_play"@;
            let run = trim_spec(mode@) == "run_server"@;
            &&& role.0@ == trim_spec(mode@)
            &&& play ==> role.1 == TargetRole::Client
            &&& run ==> role.1 == TargetRole::Server
            &&& !play && !run && client ==> role.1 == TargetRole::Client
            &&& !play && !run && !client && server ==> role.1 == TargetRole::Server
            &&& !play && !run && !client && !server ==> role.1 == TargetRole::Edit
        }),
{
    the_session_decides_what_renders(server.state@.instances, mode@, window@, now);
}

/// Without a window the default window's DataModels decide.
pub proof fn the_default_window_stands_in<C>(
    server: &RBXStudioServer<C>,
    mode: &str,
    window: &str,
    now: u64,
    role: (String, TargetRole),
    same: (String, TargetRole),
)
    requires
        call_ensures(RBXStudioServer::<C>::rendering_role, (server, mode, None, now), role),
        call_ensures(RBXStudioServer::<C>::rendering_role, (server, mode, Some(window), now), same),
        window@ == "default"@,
    ensures
        role.1 == same.1,
        role.0@ == same.0@,
{
}

/// A tool that follows the session goes to the client in play mode, to the role that is asked for in
/// run mode, and to the edit DataModel otherwise.
pub proof fn tools_follow_the_session(mode: &str, run_server_role: TargetRole, role: TargetRole)
    requires
        call_ensures(play_aware_role, (mode, run_server_role), role),
    ensures
        trim_spec(mode@) == "start_play"@ ==> role == TargetRole::Client,
        trim_spec(mode@) == "run_server"@ ==> role == run_server_role,
        trim_spec(mode@) != "start_play"@ && trim_spec(mode@) != "run_server"@ ==> role
            == TargetRole::Edit,
{
    reveal_strlit("start_play");
    reveal_strlit("run_server");
    assert("start_play"@[0] != "run_server"@[0]);
}

/// A window is selected exactly where it is the only one of the report that the request names among
/// those with a connected DataModel, whichever and however many those are; otherwise the request fails
/// and the selection stays. The router is left alone.
pub proof fn the_named_window_is_selected<C>(
    server: &mut RBXStudioServer<C>,
    request: &str,
    rows: &Vec<InstanceSummary>,
    reply: Result<String, String>,
    at: int,
)
    requires
        call_ensures(RBXStudioServer::<C>::select_studio_instance, (server, request, rows), reply),
        trim_spec(request@).len() > 0,
        !is_auto(trim_spec(request@)),
        0 <= at < rows@.len(),
        rows@[at].connected_roles@.len() > 0,
        names_row(trim_spec(request@), rows@[at]),
    ensures
        ({
            let only = forall|other: int|
                0 <= other < rows@.len() && other != at && (#[trigger] rows@[other]).connected_roles@.len()
                    > 0 ==> !names_row(trim_spec(request@), rows@[other]);
            &&& only ==> string_view(final(server).selected_instance) == Some(rows@[at].id@)
            &&& only ==> (reply matches Ok(text) && contains_text(text@, display_spec(rows@[at].id@)))
            &&& !only ==> string_view(final(server).selected_instance) == string_view(
                old(server).selected_instance,
            )
            &&& !only ==> reply is Err
            &&& final(server).state == old(server).state
        }),
{
    the_only_named_window_is_selected(
        string_view(old(server).selected_instance),
        request@,
        rows@,
        at,
    );
}

/// A request that names no connected window fails, and one that is empty or says `auto` clears the
/// selection; the router is left alone.
pub proof fn other_requests_select_nothing<C>(
    server: &mut RBXStudioServer<C>,
    request: &str,
    rows: &Vec<InstanceSummary>,
    reply: Result<String, String>,
)
    requires
        call_ensures(RBXStudioServer::<C>::select_studio_instance, (server, request, rows), reply),
    ensures
        ({
            let query = trim_spec(request@);
            let cleared = query.len() == 0 || is_auto(query);
            let none = forall|at: int|
                0 <= at < rows@.len() && (#[trigger] rows@[at]).connected_roles@.len() > 0 ==> !names_row(
                    query,
                    rows@[at],
                );
            &&& cleared ==> final(server).selected_instance is None && reply is Ok
            &&& !cleared && none ==> reply is Err && string_view(final(server).selected_instance)
                == string_view(old(server).selected_instance)
            &&& final(server).state == old(server).state
        }),
{
    let query = trim_spec(request@);
    let selected = string_view(old(server).selected_instance);
    if query.len() == 0 || is_auto(query) {
        the_selection_can_be_cleared(selected, request@, rows@);
    } else if forall|at: int|
        0 <= at < rows@.len() && (#[trigger] rows@[at]).connected_roles@.len() > 0 ==> !names_row(
            query,
            rows@[at],
        ) {
        unknown_windows_are_not_selected(selected, request@, rows@);
    }
}

/// A request that fails is answered with the windows to choose from: with the connected ones where it
/// names none of them, and with those that it names where it names several.
pub proof fn failed_requests_are_told_the_windows<C>(
    server: &mut RBXStudioServer<C>,
    request: &str,
    rows: &Vec<InstanceSummary>,
    reply: Result<String, String>,
    at: int,
    other: int,
)
    requires
        call_ensures(RBXStudioServer::<C>::select_studio_instance, (server, request, rows), reply),
        trim_spec(request@).len() > 0,
        !is_auto(trim_spec(request@)),
        0 <= at < rows@.len(),
        rows@[at].connected_roles@.len() > 0,
    ensures
        ({
            let query = trim_spec(request@);
            let none = forall|i: int|
                0 <= i < rows@.len() && (#[trigger] rows@[i]).connected_roles@.len() > 0 ==> !names_row(
                    query,
                    rows@[i],
                );
            let several = names_row(query, rows@[at]) && names_row(query, rows@[other]) && 0 <= other
                < rows@.len() && other != at && rows@[other].connected_roles@.len() > 0;
            none || several ==> (reply matches Err(message) && contains_text(
                message@,
                display_spec(rows@[at].id@),
            ))
        }),
{
    refused_requests_are_told_the_windows(
        string_view(old(server).selected_instance),
        request@,
        rows@,
        at,
        other,
    );
}

/// A request clears the selection where it is empty or says `auto`; a new server has no selection.
pub proof fn selections_begin_empty<C>(
    request: &str,
    yes: bool,
    state: AppState<C>,
    server: RBXStudioServer<C>,
)
    requires
        call_ensures(clears_selection, (request,), yes),
        call_ensures(RBXStudioServer::<C>::new, (state,), server),
    ensures
        trim_spec(request@).len() == 0 || is_auto(trim_spec(request@)) ==> yes,
        yes ==> trim_spec(request@).len() == 0 || is_auto(trim_spec(request@)),
        server.selected_instance is None,
        server.state == state,
{
    if trim_spec(request@).len() > 0 {
        auto_counts_in_any_case(trim_spec(request@));
    }
}

/// A listing shows each window of the report, in its order, and marks the selected one and no other.
pub proof fn listings_mark_the_selection<C>(
    server: &RBXStudioServer<C>,
    rows: Vec<InstanceSummary>,
    listing: InstanceListing,
    at: int,
)
    requires
        call_ensures(RBXStudioServer::<C>::list_studio_instances, (server, rows), listing),
        0 <= at < rows@.len(),
    ensures
        listing.instances@.len() == rows@.len(),
        listing.instances@[at].summary == rows@[at],
        server.selected_instance matches Some(id) ==> listing.instances@[at].selected == (rows@[at].id@
            == id@),
        server.selected_instance is None ==> !listing.instances@[at].selected && listing.selection is None,
        server.selected_instance matches Some(id) ==> (listing.selection matches Some(shown) && shown@
            == display_spec(id@)),
{
    assert(listing.instances@[at].summary == rows@[at]);
}

/// A command goes to the selected window while one of its DataModels polls; otherwise to the window
/// that polls, where there is just one; and nowhere, where it is not clear. A server that has seen no
/// poll passes the selection on.
pub proof fn commands_go_to_the_selected_or_only_window<C>(
    server: &RBXStudioServer<C>,
    now: u64,
    window: Result<Option<String>, String>,
)
    requires
        call_ensures(RBXStudioServer::<C>::resolve_instance, (server, now), window),
    ensures
        ({
            let instances = server.state@.instances;
            let connected = connected_ids(instances, now);
            let selected = server.selected_instance;
            let stands = selected matches Some(id) && is_connected(instances, id@, now);
            &&& instances.is_empty() ==> (window matches Ok(same) && string_view(same) == string_view(
                selected,
            ))
            &&& !instances.is_empty() && stands ==> (window matches Ok(Some(id)) && id@ == selected->0@)
            &&& !instances.is_empty() && !stands && connected.len() == 1 ==> (window matches Ok(Some(id))
                && id@ == connected[0])
            &&& !instances.is_empty() && !stands && connected.len() != 1 ==> (window matches Err(message)
                && auto_instance(connected) == Err::<Seq<char>, Seq<char>>(message@))
        }),
{
    let connected = connected_ids(server.state@.instances, now);
    assert(connected.len() == 1 <==> auto_instance(connected) is Ok);
}

/// The title to look for is the name of the place whose window commands go to.
pub proof fn the_current_title_is_the_place_name<C>(
    server: &RBXStudioServer<C>,
    now: u64,
    window: Result<Option<String>, String>,
    hint: Option<String>,
    place_id: Seq<char>,
    name: Seq<char>,
)
    requires
        call_ensures(RBXStudioServer::<C>::resolve_instance, (server, now), window),
        call_ensures(RBXStudioServer::<C>::window_hint, (server, now), hint),
        !place_id.contains('|'),
    ensures
        window matches Ok(Some(id)) ==> id@ == place_id + seq!['|'] + name && name.len() > 0 ==> (
        hint matches Some(text) && text@ == name),
        window matches Ok(Some(id)) ==> id@ == place_id ==> hint is None,
        window is Err ==> hint is None,
{
    titles_are_found_by_name(place_id, name);
}

/// Window control reports the windows, or restores the one with the title that is named, or else the
/// one that commands go to; every other action is refused by name.
pub proof fn window_control_does_what_is_asked<C>(
    server: &RBXStudioServer<C>,
    action: &str,
    title: Option<String>,
    now: u64,
    hint: Option<String>,
    request: Result<WindowRequest, String>,
)
    requires
        call_ensures(RBXStudioServer::<C>::studio_window, (server, action, title, now), request),
        call_ensures(RBXStudioServer::<C>::window_hint, (server, now), hint),
    ensures
        action@ == "status"@ <==> (request matches Ok(asked) && asked is Status),
        action@ == "restore"@ || action@ == "focus"@ <==> (request matches Ok(asked) && asked is Restore),
        request matches Ok(WindowRequest::Restore { hint: h }) ==> string_view(h) == match title {
            Some(named) => Some(named@),
            None => string_view(hint),
        },
        request matches Err(message) ==> contains_text(message@, action@),
{
    reveal_strlit("status");
    reveal_strlit("restore");
    reveal_strlit("focus");
    assert("status"@[0] == 's' && "restore"@[0] == 'r' && "focus"@[0] == 'f');
    if let Err(message) = request {
        assert(message@ =~= "Invalid action '"@ + action@ + "': must be status or restore"@);
        found_text_stands_between(message@, action@);
    }
}

/// A result answers a tool call as it is, as a success or as an error.
pub proof fn results_are_answers(result: Result<String, String>, reply: ToolReply)
    requires
        call_ensures(tool_reply, (result,), reply),
    ensures
        result matches Ok(text) ==> (reply matches ToolReply::Success { text: t } && t@ == text@),
        result matches Err(text) ==> (reply matches ToolReply::Error { text: t } && t@ == text@),
{
}

/// A tool call runs its own command in the window that was resolved for it, where its plan fixes the
/// role; where the session decides, the mode is asked for first. A plan that refuses, and a window that
/// could not be resolved, answer the call with the error.
pub proof fn tool_calls_keep_their_command_and_window(
    plan: ToolPlan,
    resolved: Result<Option<String>, String>,
    step: ToolStep,
)
    requires
        call_ensures(begin_tool, (plan, resolved), step),
    ensures
        plan matches ToolPlan::Refuse { message } ==> (step matches ToolStep::Reply {
            reply: ToolReply::Error { text },
        } && text@ == message@),
        plan !is Refuse ==> (resolved matches Err(error) ==> (step matches ToolStep::Reply {
            reply: ToolReply::Error { text },
        } && text@ == error@)),
        resolved matches Ok(window) ==> {
            &&& plan matches ToolPlan::Run { args, target } ==> (step matches ToolStep::Execute {
                args: a,
                target: t,
                instance,
            } && a == args && t == target && instance == window)
            &&& plan matches ToolPlan::PlayAware { args, run_server_role } ==> (
            step matches ToolStep::AskMode { pending } && pending.args == args && pending.instance
                == window && pending.rule == (RoleRule::PlayAware { run_server_role }))
            &&& plan matches ToolPlan::Rendering { args } ==> (step matches ToolStep::AskMode { pending }
                && pending.args == args && pending.instance == window && pending.rule
                == RoleRule::Rendering)
            &&& plan matches ToolPlan::RefuseResolved { message } ==> (step matches ToolStep::Reply {
                reply: ToolReply::Error { text },
            } && text@ == message@)
        },
{
}

/// Once the mode is known the tool's own command runs on its own window: on the client in play mode,
/// whatever the rule; in run mode on the server for what renders, and on the role that is asked for
/// otherwise. Where the mode could not be asked for, the call is answered with that error.
pub proof fn the_mode_leads_to_the_command<C>(
    server: &RBXStudioServer<C>,
    pending: PendingRole,
    mode: Result<String, String>,
    now: u64,
    step: ToolStep,
)
    requires
        call_ensures(RBXStudioServer::<C>::mode_answered, (server, pending, mode, now), step),
    ensures
        mode is Ok ==> (step matches ToolStep::Execute { args, target, instance } && {
            let word = trim_spec(mode->Ok_0@);
            let window = match pending.instance {
                Some(id) => id@,
                None => "default"@,
            };
            let polls = |role: TargetRole| role_is_fresh(server.state@.instances, window, role, now);
            &&& args == pending.args
            &&& instance == pending.instance
            &&& word == "start_play"@ ==> target == TargetRole::Client
            &&& word == "run_server"@ ==> target == match pending.rule {
                RoleRule::PlayAware { run_server_role } => run_server_role,
                RoleRule::Rendering => TargetRole::Server,
            }
            &&& word != "start_play"@ && word != "run_server"@ ==> {
                &&& pending.rule is PlayAware ==> target == TargetRole::Edit
                &&& pending.rule is Rendering && polls(TargetRole::Client) ==> target == TargetRole::Client
                &&& pending.rule is Rendering && !polls(TargetRole::Client) && polls(TargetRole::Server)
                    ==> target == TargetRole::Server
                &&& pending.rule is Rendering && !polls(TargetRole::Client) && !polls(TargetRole::Server)
                    ==> target == TargetRole::Edit
            }
        }),
        mode matches Err(message) ==> (step matches ToolStep::Reply { reply: ToolReply::Error { text } }
            && text@ == message@),
{
    reveal_strlit("start_play");
    reveal_strlit("run_server");
    assert("start_play"@[0] != "run_server"@[0]);
}

/// Whether a plan runs these arguments on this role.
pub open spec fn runs_on(plan: ToolPlan, args: ToolArgumentValues, role: TargetRole) -> bool {
    plan matches ToolPlan::Run { args: a, target } && a == args && target == role
}

/// Whether a plan runs these arguments on the DataModel of the session, in run mode on this role.
pub open spec fn follows_session(plan: ToolPlan, args: ToolArgumentValues, in_run_mode: TargetRole) -> bool {
    plan matches ToolPlan::PlayAware { args: a, run_server_role } && a == args && run_server_role
        == in_run_mode
}

/// Input goes to the client, with its own arguments.
pub proof fn input_goes_to_the_client(
    click: ClickUi,
    key: SendKey,
    text: SendText,
    movement: MouseMove,
    drag: MouseDrag,
    object: ClickObject,
    sequence: InputSequence,
    control: ControlCharacter,
    plan: ToolPlan,
)
    ensures
        call_ensures(click_ui, (click,), plan) ==> runs_on(
            plan,
            ToolArgumentValues::ClickUi(click),
            TargetRole::Client,
        ),
        call_ensures(send_key, (key,), plan) ==> runs_on(
            plan,
            ToolArgumentValues::SendKey(key),
            TargetRole::Client,
        ),
        call_ensures(send_text, (text,), plan) ==> runs_on(
            plan,
            ToolArgumentValues::SendText(text),
            TargetRole::Client,
        ),
        call_ensures(mouse_move, (movement,), plan) ==> runs_on(
            plan,
            ToolArgumentValues::MouseMove(movement),
            TargetRole::Client,
        ),
        call_ensures(mouse_drag, (drag,), plan) ==> runs_on(
            plan,
            ToolArgumentValues::MouseDrag(drag),
            TargetRole::Client,
        ),
        call_ensures(click_object, (object,), plan) ==> runs_on(
            plan,
            ToolArgumentValues::ClickObject(object),
            TargetRole::Client,
        ),
        call_ensures(input_sequence, (sequence,), plan) ==> runs_on(
            plan,
            ToolArgumentValues::InputSequence(sequence),
            TargetRole::Client,
        ),
        call_ensures(control_character, (control,), plan) ==> runs_on(
            plan,
            ToolArgumentValues::ControlCharacter(control),
            TargetRole::Client,
        ),
{
}

/// What changes the place or the session, and the question for the mode, go to the edit DataModel.
pub proof fn changes_go_to_the_edit_data_model(
    model: InsertModel,
    play: StartStopPlay,
    script: RunScriptInPlayMode,
    mode: GetStudioMode,
    plan: ToolPlan,
    query: ToolArgumentValues,
)
    ensures
        call_ensures(insert_model, (model,), plan) ==> runs_on(
            plan,
            ToolArgumentValues::InsertModel(model),
            TargetRole::Edit,
        ),
        call_ensures(start_stop_play, (play,), plan) ==> runs_on(
            plan,
            ToolArgumentValues::StartStopPlay(play),
            TargetRole::Edit,
        ),
        call_ensures(run_script_in_play_mode, (script,), plan) ==> runs_on(
            plan,
            ToolArgumentValues::RunScriptInPlayMode(script),
            TargetRole::Edit,
        ),
        call_ensures(get_studio_mode, (mode,), plan) ==> runs_on(
            plan,
            ToolArgumentValues::GetStudioMode(mode),
            TargetRole::Edit,
        ),
        call_ensures(mode_query, (), query) ==> query is GetStudioMode,
{
}

/// What inspects the session goes to its DataModel: the UI is the edit DataModel's in run mode, the
/// prompts are the server's. The camera goes to what renders.
pub proof fn inspection_follows_the_session(
    tree: GetUiTree,
    find: FindUi,
    prompts: ListPrompts,
    camera: SetCamera,
    plan: ToolPlan,
)
    ensures
        call_ensures(get_ui_tree, (tree,), plan) ==> follows_session(
            plan,
            ToolArgumentValues::GetUiTree(tree),
            TargetRole::Edit,
        ),
        call_ensures(find_ui, (find,), plan) ==> follows_session(
            plan,
            ToolArgumentValues::FindUi(find),
            TargetRole::Edit,
        ),
        call_ensures(list_prompts, (prompts,), plan) ==> follows_session(
            plan,
            ToolArgumentValues::ListPrompts(prompts),
            TargetRole::Server,
        ),
        call_ensures(set_camera, (camera,), plan) ==> (plan matches ToolPlan::Rendering { args } && args
            == ToolArgumentValues::SetCamera(camera)),
{
}

/// Whether a plan runs these arguments where a context says: on the DataModel of that name, on the edit
/// DataModel without one, and nowhere where there is no such DataModel.
pub open spec fn goes_where_context_says(
    plan: ToolPlan,
    args: ToolArgumentValues,
    context: Option<String>,
) -> bool {
    match context {
        None => runs_on(plan, args, TargetRole::Edit),
        Some(word) => {
            &&& word@ == "edit"@ ==> runs_on(plan, args, TargetRole::Edit)
            &&& word@ == "server"@ ==> runs_on(plan, args, TargetRole::Server)
            &&& word@ == "client"@ ==> runs_on(plan, args, TargetRole::Client)
            &&& word@ != "edit"@ && word@ != "server"@ && word@ != "client"@ ==> plan is Refuse
        },
    }
}

/// Whether a mode of execution exists.
pub open spec fn is_mode(mode: Option<String>) -> bool {
    mode matches Some(word) ==> word@ == "output"@ || word@ == "execute"@
}

/// Code, and the questions for output and errors, go with their own arguments where their context says;
/// code with a mode that does not exist is refused.
pub proof fn commands_go_where_their_context_says(
    code: RunCode,
    output: GetConsoleOutput,
    errors: GetErrors,
    plan: ToolPlan,
)
    ensures
        call_ensures(run_code, (code,), plan) ==> {
            &&& is_mode(code.mode) ==> goes_where_context_says(
                plan,
                ToolArgumentValues::RunCode(code),
                code.context,
            )
            &&& !is_mode(code.mode) ==> plan is Refuse
        },
        call_ensures(get_console_output, (output,), plan) ==> goes_where_context_says(
            plan,
            ToolArgumentValues::GetConsoleOutput(output),
            output.context,
        ),
        call_ensures(get_errors, (errors,), plan) ==> goes_where_context_says(
            plan,
            ToolArgumentValues::GetErrors(errors),
            errors.context,
        ),
{
    lemma_words();
    if let Some(mode) = code.mode {
        modes_are_output_and_execute(mode@);
    }
}

/// A script file runs as the code that it holds, where its context says; one that could not be read, or
/// that holds nothing but white space, is refused.
pub proof fn script_files_run_as_their_code(
    script: RunCodeFromFile,
    contents: Result<String, String>,
    plan: ToolPlan,
)
    requires
        call_ensures(run_code_from_file, (script, contents), plan),
    ensures
        contents is Err || !is_mode(script.mode) ==> plan is Refuse,
        contents matches Ok(text) ==> trim_spec(text@).len() == 0 ==> plan is Refuse,
        contents matches Ok(text) ==> trim_spec(text@).len() > 0 && is_mode(script.mode) ==> {
            let code = RunCode {
                command: text,
                context: script.context,
                mode: script.mode,
                max_lines: script.max_lines,
            };
            goes_where_context_says(plan, ToolArgumentValues::RunCode(code), script.context)
        },
{
    lemma_words();
    if let Some(mode) = script.mode {
        modes_are_output_and_execute(mode@);
    }
}

/// A condition is waited for where its context says, and without one where the session is: on the
/// client in play mode and on the server in run mode.
pub proof fn conditions_are_waited_for_where_the_context_says(wait: WaitFor, plan: ToolPlan)
    requires
        call_ensures(wait_for, (wait,), plan),
    ensures
        ({
            let args = ToolArgumentValues::WaitFor(wait);
            match wait.context {
                None => follows_session(plan, args, TargetRole::Server),
                Some(word) => {
                    &&& word@ == "edit"@ ==> runs_on(plan, args, TargetRole::Edit)
                    &&& word@ == "server"@ ==> runs_on(plan, args, TargetRole::Server)
                    &&& word@ == "client"@ ==> runs_on(plan, args, TargetRole::Client)
                    &&& word@ != "edit"@ && word@ != "server"@ && word@ != "client"@
                        ==> plan is RefuseResolved
                },
            }
        }),
{
    lemma_words();
}

} // verus!
