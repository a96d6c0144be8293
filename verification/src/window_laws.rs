//! What holds of the Studio windows, of the selection among them and of the role that a command goes
//! to, said of the times of the polls and of the fields of the reports.

use crate::instances::{
    connected_ids, display_spec, is_connected, known, lists_connected, noted, role_is_fresh,
    StudioInstance,
};
use crate::role::{parse_context_spec, validate_mode_spec, TargetRole};
use crate::routing::{auto_instance, bullets, id_parts, poll_status_spec, summarizes, InstanceSummary};
use crate::server::{
    matching_rows, play_aware_role_spec, rendering_role_spec, resolve_spec, row_ids,
    select_spec, selects, title_hint, RBXStudioServer,
};
use crate::text::{
    contains_text, decimal_spec, join_spec, lowercase, string_view, texts, trim_spec,
};
use crate::text_laws::{
    case_is_all_that_differs, found_text_stands_between, joining_separates_neighbours,
    splitting_takes_apart, splitting_undoes_joining,
};
use vstd::prelude::*;

verus! {

/// A DataModel is connected from its last poll until three seconds have passed, and its window is
/// connected while any of its DataModels is. The legacy role names none.
pub proof fn polls_count_for_three_seconds(
    instances: Map<Seq<char>, StudioInstance>,
    id: Seq<char>,
    now: u64,
)
    ensures
        ({
            let edit = instances.contains_key(id) && (instances[id].edit matches Some(at) && now < at
                + 3_000_000_000);
            let server = instances.contains_key(id) && (instances[id].server matches Some(at) && now < at
                + 3_000_000_000);
            let client = instances.contains_key(id) && (instances[id].client matches Some(at) && now < at
                + 3_000_000_000);
            &&& role_is_fresh(instances, id, TargetRole::Edit, now) == edit
            &&& role_is_fresh(instances, id, TargetRole::Server, now) == server
            &&& role_is_fresh(instances, id, TargetRole::Client, now) == client
            &&& !role_is_fresh(instances, id, TargetRole::Legacy, now)
            &&& is_connected(instances, id, now) == (edit || server || client)
        }),
{
    if instances.contains_key(id) {
        let instance = instances[id];
        assert(instance.role_fresh_spec(TargetRole::Edit, now) ==> instance.any_role_fresh_spec(now));
        assert(instance.role_fresh_spec(TargetRole::Server, now) ==> instance.any_role_fresh_spec(now));
        assert(instance.role_fresh_spec(TargetRole::Client, now) ==> instance.any_role_fresh_spec(now));
        if instance.any_role_fresh_spec(now) {
            let role = choose|role: TargetRole| instance.role_fresh_spec(role, now);
            assert(instance.role_fresh_spec(role, now));
        }
    }
}

/// A poll sets the time of its own DataModel, and no other: the other DataModels of the window keep
/// theirs, and have none where the window was unknown.
pub proof fn polls_set_their_own_time(
    instances: Map<Seq<char>, StudioInstance>,
    id: Seq<char>,
    role: TargetRole,
    now: u64,
)
    requires
        role != TargetRole::Legacy,
    ensures
        ({
            let after = noted(instances, id, role, now);
            let before = instances.contains_key(id);
            &&& after.contains_key(id)
            &&& after[id].edit == if role == TargetRole::Edit {
                Some(now)
            } else if before {
                instances[id].edit
            } else {
                None
            }
            &&& after[id].server == if role == TargetRole::Server {
                Some(now)
            } else if before {
                instances[id].server
            } else {
                None
            }
            &&& after[id].client == if role == TargetRole::Client {
                Some(now)
            } else if before {
                instances[id].client
            } else {
                None
            }
        }),
{
    let polled = known(instances, id).polled(role, now);
    assert(polled.seconds_since_poll_spec(now) == Some(0u64));
    assert(polled.remembered(now));
}

/// A poll of one window leaves another as it is, unless none of the other's DataModels has polled for
/// ten minutes: then the other is forgotten.
pub proof fn other_windows_are_kept_for_ten_minutes(
    instances: Map<Seq<char>, StudioInstance>,
    id: Seq<char>,
    role: TargetRole,
    now: u64,
    other: Seq<char>,
)
    requires
        role != TargetRole::Legacy,
        other != id,
    ensures
        ({
            let after = noted(instances, id, role, now);
            let window = instances[other];
            let recent = {
                ||| window.edit matches Some(at) && now < at + 600_000_000_000
                ||| window.server matches Some(at) && now < at + 600_000_000_000
                ||| window.client matches Some(at) && now < at + 600_000_000_000
            };
            &&& after.contains_key(other) == (instances.contains_key(other) && recent)
            &&& after.contains_key(other) ==> after[other] == window
        }),
{
}

/// A poll without a role leaves everything as it is.
pub proof fn polls_without_a_role_change_nothing(
    instances: Map<Seq<char>, StudioInstance>,
    id: Seq<char>,
    now: u64,
)
    ensures
        noted(instances, id, TargetRole::Legacy, now) == instances,
{
}

/// The age of a window is the whole seconds since the most recent poll of any of its DataModels.
pub proof fn windows_are_as_old_as_their_last_poll(instance: StudioInstance, now: u64)
    requires
        instance.edit matches Some(at) ==> at <= now,
        instance.server matches Some(at) ==> at <= now,
        instance.client matches Some(at) ==> at <= now,
    ensures
        match instance.seconds_since_poll_spec(now) {
            None => instance.edit is None && instance.server is None && instance.client is None,
            Some(age) => {
                &&& instance.edit matches Some(at) ==> age <= (now - at) / 1_000_000_000
                &&& instance.server matches Some(at) ==> age <= (now - at) / 1_000_000_000
                &&& instance.client matches Some(at) ==> age <= (now - at) / 1_000_000_000
                &&& {
                    ||| instance.edit matches Some(at) && age == (now - at) / 1_000_000_000
                    ||| instance.server matches Some(at) && age == (now - at) / 1_000_000_000
                    ||| instance.client matches Some(at) && age == (now - at) / 1_000_000_000
                }
            },
        },
{
}

/// An instance id is shown as the place's name with its id behind it; an id without a bar is shown as
/// it is.
pub proof fn windows_are_shown_by_name(place_id: Seq<char>, name: Seq<char>)
    requires
        !place_id.contains('|'),
    ensures
        display_spec(place_id + seq!['|'] + name) == name + " (placeId "@ + place_id + ")"@,
        display_spec(place_id) == place_id,
        id_parts(place_id + seq!['|'] + name) == (place_id, name),
        id_parts(place_id) == (Seq::<char>::empty(), place_id),
{
    splitting_undoes_joining(place_id, name, '|');
    splitting_takes_apart(place_id, '|');
}

/// A text that is joined with others is found in what they make.
pub proof fn joined_texts_are_found(list: Seq<Seq<char>>, separator: Seq<char>, at: int)
    requires
        0 <= at < list.len(),
    ensures
        contains_text(join_spec(list, separator), list[at]),
    decreases list.len(),
{
    let shorter = list.drop_last();
    let last = list.last();
    let whole = join_spec(list, separator);
    joining_separates_neighbours(shorter, last, separator);
    assert(list =~= shorter.push(last));
    let nothing = Seq::<char>::empty();
    if shorter.len() == 0 {
        assert(list =~= seq![last]);
        assert(whole =~= nothing + list[at] + nothing);
    } else if at == list.len() - 1 {
        assert(whole =~= (join_spec(shorter, separator) + separator) + list[at] + nothing);
    } else {
        joined_texts_are_found(shorter, separator, at);
        found_text_stands_between(join_spec(shorter, separator), list[at]);
        let (before, behind) = choose|before: Seq<char>, behind: Seq<char>|
            join_spec(shorter, separator) == #[trigger] (before + shorter[at] + behind);
        assert(whole =~= before + list[at] + (behind + separator + last));
    }
    found_text_stands_between(whole, list[at]);
}

/// Where no window is connected, or several are, none is picked; and where several are, each of them
/// is named.
pub proof fn no_window_is_guessed(connected: Seq<Seq<char>>, at: int)
    requires
        0 <= at < connected.len(),
    ensures
        auto_instance(Seq::empty()) is Err,
        connected.len() == 1 ==> auto_instance(connected) == Ok::<Seq<char>, Seq<char>>(connected[0]),
        connected.len() >= 2 ==> (auto_instance(connected) matches Err(message) && contains_text(
            message,
            display_spec(connected[at]),
        )),
{
    if connected.len() >= 2 {
        let lines = connected.map_values(|id: Seq<char>| "- "@ + display_spec(id));
        let shown = display_spec(connected[at]);
        joined_texts_are_found(lines, "\n"@, at);
        found_text_stands_between(bullets(connected), lines[at]);
        let (before, behind) = choose|before: Seq<char>, behind: Seq<char>|
            bullets(connected) == #[trigger] (before + lines[at] + behind);
        let message = auto_instance(connected)->Err_0;
        let front = "Multiple Roblox Studio instances are connected:\n"@;
        let end = "\nCall select_studio_instance with the place name or placeId to choose which one to operate on."@;
        assert(lines[at] == "- "@ + shown);
        assert(message =~= (front + before + "- "@) + shown + (behind + end));
        found_text_stands_between(message, shown);
    }
}

/// A command goes to the selected window while one of its DataModels polls; otherwise to the window
/// that polls, where there is just one; and nowhere, where it is not clear. A server that has seen no
/// poll passes the selection on.
pub proof fn commands_go_where_polls_come_from(
    instances: Map<Seq<char>, StudioInstance>,
    selected: Option<Seq<char>>,
    now: u64,
)
    requires
        lists_connected(instances, now, connected_ids(instances, now)),
    ensures
        instances.is_empty() ==> resolve_spec(instances, selected, now) == Ok::<
            Option<Seq<char>>,
            Seq<char>,
        >(selected),
        !instances.is_empty() && selected is Some && is_connected(instances, selected->0, now)
            ==> resolve_spec(instances, selected, now) == Ok::<Option<Seq<char>>, Seq<char>>(selected),
        !instances.is_empty() && !(selected is Some && is_connected(instances, selected->0, now)) ==> match resolve_spec(
            instances,
            selected,
            now,
        ) {
            Ok(Some(id)) => forall|other: Seq<char>|
                is_connected(instances, other, now) <==> other == id,
            Ok(None) => false,
            Err(_) => forall|id: Seq<char>| #[trigger]
                is_connected(instances, id, now) ==> exists|other: Seq<char>|
                    other != id && #[trigger] is_connected(instances, other, now),
        },
{
    let ids = connected_ids(instances, now);
    if !instances.is_empty() && !(selected is Some && is_connected(instances, selected->0, now)) {
        match resolve_spec(instances, selected, now) {
            Ok(Some(id)) => {
                crate::laws::auto_instance_is_the_only_one(instances, now, ids, id);
            },
            Ok(None) => {},
            Err(_) => {
                assert forall|id: Seq<char>| #[trigger]
                    is_connected(instances, id, now) implies exists|other: Seq<char>|
                    other != id && #[trigger] is_connected(instances, other, now) by {
                    crate::laws::auto_instance_is_the_only_one(instances, now, ids, id);
                }
            },
        }
    }
}

/// A report of a window names the DataModels that polled within three seconds, and no others.
pub proof fn reported_data_models_are_those_that_poll(
    row: InstanceSummary,
    id: Seq<char>,
    instance: StudioInstance,
    now: u64,
)
    requires
        summarizes(row, id, instance, now),
    ensures
        texts(row.connected_roles@).contains("edit"@) <==> (instance.edit matches Some(at) && now < at
            + 3_000_000_000),
        texts(row.connected_roles@).contains("server"@) <==> (instance.server matches Some(at) && now
            < at + 3_000_000_000),
        texts(row.connected_roles@).contains("client"@) <==> (instance.client matches Some(at) && now
            < at + 3_000_000_000),
        forall|role: Seq<char>| #[trigger]
            texts(row.connected_roles@).contains(role) ==> role == "edit"@ || role == "server"@ || role
                == "client"@,
{
    reveal_strlit("edit");
    reveal_strlit("server");
    reveal_strlit("client");
    let roles = texts(row.connected_roles@);
    let client = crate::routing::listed_if(
        crate::instances::fresh_poll(instance.client, now),
        "client"@,
    );
    let edit = crate::routing::listed_if(crate::instances::fresh_poll(instance.edit, now), "edit"@);
    let server = crate::routing::listed_if(
        crate::instances::fresh_poll(instance.server, now),
        "server"@,
    );
    assert(roles == client + edit + server);
    assert("edit"@.len() == 4 && "server"@.len() == 6 && "client"@.len() == 6);
    assert("server"@[0] != "client"@[0]);
    assert forall|role: Seq<char>| #[trigger] roles.contains(role) <==> (client.contains(role)
        || edit.contains(role) || server.contains(role)) by {
        if roles.contains(role) {
            let i = choose|i: int| 0 <= i < roles.len() && roles[i] == role;
            if i < client.len() {
                assert(client[i] == role);
            } else if i < client.len() + edit.len() {
                assert(edit[i - client.len()] == role);
            } else {
                assert(server[i - client.len() - edit.len()] == role);
            }
        }
        if client.contains(role) {
            assert(roles[0] == role);
        }
        if edit.contains(role) {
            assert(roles[client.len() as int] == role);
        }
        if server.contains(role) {
            assert(roles[(client.len() + edit.len()) as int] == role);
        }
    }
    assert(client.len() == 1 ==> client[0] == "client"@);
    assert(edit.len() == 1 ==> edit[0] == "edit"@);
    assert(server.len() == 1 ==> server[0] == "server"@);
}

/// A report of a window tells its id, the parts of its id, the DataModels that polled within three
/// seconds, and no others, and how long the last poll is ago.
pub proof fn reports_tell_the_polls(
    row: InstanceSummary,
    place_id: Seq<char>,
    name: Seq<char>,
    instance: StudioInstance,
    now: u64,
)
    requires
        !place_id.contains('|'),
        summarizes(row, place_id + seq!['|'] + name, instance, now),
    ensures
        row.id@ == place_id + seq!['|'] + name,
        row.place_id@ == place_id,
        row.name@ == name,
        texts(row.connected_roles@).contains("edit"@) <==> (instance.edit matches Some(at) && now < at
            + 3_000_000_000),
        texts(row.connected_roles@).contains("server"@) <==> (instance.server matches Some(at) && now
            < at + 3_000_000_000),
        texts(row.connected_roles@).contains("client"@) <==> (instance.client matches Some(at) && now
            < at + 3_000_000_000),
        forall|role: Seq<char>| #[trigger]
            texts(row.connected_roles@).contains(role) ==> role == "edit"@ || role == "server"@ || role
                == "client"@,
        Some(row.seconds_since_poll) == instance.seconds_since_poll_spec(now)
            || instance.seconds_since_poll_spec(now) is None,
{
    windows_are_shown_by_name(place_id, name);
    reported_data_models_are_those_that_poll(row, place_id + seq!['|'] + name, instance, now);
}

/// Whether a query names a row of a report: it is the window's id, the place's id, or part of the
/// place's name but for the case.
pub open spec fn names_row(query: Seq<char>, row: InstanceSummary) -> bool {
    ||| query == row.id@
    ||| query == row.place_id@
    ||| exists|before: Seq<char>, behind: Seq<char>|
        lowercase(row.name@) == #[trigger] (before + lowercase(query) + behind)
}

/// A window is selected exactly where it is the only one of the report that the request names among
/// those with a connected DataModel, whichever and however many those are. Otherwise the request
/// fails and the selection stays.
pub proof fn the_only_named_window_is_selected(
    selected: Option<Seq<char>>,
    request: Seq<char>,
    rows: Seq<InstanceSummary>,
    at: int,
)
    requires
        trim_spec(request).len() > 0,
        !is_auto(trim_spec(request)),
        0 <= at < rows.len(),
        rows[at].connected_roles@.len() > 0,
        names_row(trim_spec(request), rows[at]),
    ensures
        ({
            let (selection, reply) = select_spec(selected, request, rows);
            let only = forall|other: int|
                0 <= other < rows.len() && other != at && (#[trigger] rows[other]).connected_roles@.len()
                    > 0 ==> !names_row(trim_spec(request), rows[other]);
            &&& only ==> selection == Some(rows[at].id@) && reply is Ok
            &&& only ==> contains_text(reply->Ok_0, display_spec(rows[at].id@))
            &&& !only ==> selection == selected && reply is Err
        }),
{
    let query = trim_spec(request);
    let found = matching_rows(rows, query);
    let pred = |row: InstanceSummary|
        crate::server::row_connected(row) && crate::server::row_matches(row, query);
    lemma_not_cleared(request);
    lemma_names(query, rows[at]);
    rows.lemma_filter_contains(pred, at);
    let only = forall|other: int|
        0 <= other < rows.len() && other != at && (#[trigger] rows[other]).connected_roles@.len() > 0
            ==> !names_row(query, rows[other]);
    if only {
        assert forall|i: int| 0 <= i < rows.len() && i != at implies !pred(#[trigger] rows[i]) by {
            lemma_names(query, rows[i]);
        }
        lemma_one_kept(rows, at, pred);
        assert(found =~= seq![rows[at]]);
        assert(row_ids(found)[0] == rows[at].id@);
        let shown = display_spec(rows[at].id@);
        let reply = select_spec(selected, request, rows).1->Ok_0;
        assert(reply =~= "Now operating on Studio instance: "@ + shown + Seq::<char>::empty());
        found_text_stands_between(reply, shown);
    } else {
        let other = choose|other: int|
            0 <= other < rows.len() && other != at && (#[trigger] rows[other]).connected_roles@.len() > 0
                && names_row(query, rows[other]);
        lemma_names(query, rows[other]);
        if at < other {
            lemma_two_kept(rows, at, other, pred);
        } else {
            lemma_two_kept(rows, other, at, pred);
        }
        assert(row_ids(found).len() >= 2);
    }
}

/// Where a request names no window with a connected DataModel, nothing is selected and the selection
/// stays.
pub proof fn unknown_windows_are_not_selected(
    selected: Option<Seq<char>>,
    request: Seq<char>,
    rows: Seq<InstanceSummary>,
)
    requires
        trim_spec(request).len() > 0,
        !is_auto(trim_spec(request)),
        forall|at: int|
            0 <= at < rows.len() && (#[trigger] rows[at]).connected_roles@.len() > 0 ==> !names_row(
                trim_spec(request),
                rows[at],
            ),
    ensures
        select_spec(selected, request, rows).0 == selected,
        select_spec(selected, request, rows).1 is Err,
{
    let query = trim_spec(request);
    let pred = |row: InstanceSummary|
        crate::server::row_connected(row) && crate::server::row_matches(row, query);
    lemma_not_cleared(request);
    assert forall|i: int| 0 <= i < rows.len() implies !pred(#[trigger] rows[i]) by {
        lemma_names(query, rows[i]);
    }
    lemma_none_kept(rows, pred);
    assert(row_ids(matching_rows(rows, query)).len() == 0);
}

proof fn lemma_bulleted(ids: Seq<Seq<char>>, id: Seq<char>, front: Seq<char>, end: Seq<char>)
    requires
        ids.contains(id),
    ensures
        contains_text(front + bullets(ids) + end, display_spec(id)),
{
    let at = choose|at: int| 0 <= at < ids.len() && ids[at] == id;
    let lines = ids.map_values(|id: Seq<char>| "- "@ + display_spec(id));
    let shown = display_spec(id);
    joined_texts_are_found(lines, "\n"@, at);
    found_text_stands_between(bullets(ids), lines[at]);
    let (before, behind) = choose|before: Seq<char>, behind: Seq<char>|
        bullets(ids) == #[trigger] (before + lines[at] + behind);
    assert(lines[at] == "- "@ + shown);
    assert(front + bullets(ids) + end =~= (front + before + "- "@) + shown + (behind + end));
    found_text_stands_between(front + bullets(ids) + end, shown);
}

/// A request that fails is answered with the windows to choose from: with the connected ones where it
/// names none of them, and with those that it names where it names several.
pub proof fn refused_requests_are_told_the_windows(
    selected: Option<Seq<char>>,
    request: Seq<char>,
    rows: Seq<InstanceSummary>,
    at: int,
    other: int,
)
    requires
        trim_spec(request).len() > 0,
        !is_auto(trim_spec(request)),
        0 <= at < rows.len(),
        rows[at].connected_roles@.len() > 0,
    ensures
        ({
            let reply = select_spec(selected, request, rows).1;
            let query = trim_spec(request);
            let none = forall|i: int|
                0 <= i < rows.len() && (#[trigger] rows[i]).connected_roles@.len() > 0 ==> !names_row(
                    query,
                    rows[i],
                );
            let several = names_row(query, rows[at]) && names_row(query, rows[other]) && 0 <= other
                < rows.len() && other != at && rows[other].connected_roles@.len() > 0;
            none || several ==> (reply matches Err(message) && contains_text(
                message,
                display_spec(rows[at].id@),
            ))
        }),
{
    let query = trim_spec(request);
    let quoted = crate::text::debug_text(query);
    let reply = select_spec(selected, request, rows).1;
    let none = forall|i: int|
        0 <= i < rows.len() && (#[trigger] rows[i]).connected_roles@.len() > 0 ==> !names_row(
            query,
            rows[i],
        );
    let several = names_row(query, rows[at]) && names_row(query, rows[other]) && 0 <= other
        < rows.len() && other != at && rows[other].connected_roles@.len() > 0;
    lemma_not_cleared(request);
    lemma_names(query, rows[at]);
    if none {
        unknown_windows_are_not_selected(selected, request, rows);
        let pred = |row: InstanceSummary| crate::server::row_connected(row);
        let found = crate::server::connected_rows(rows);
        rows.lemma_filter_contains(pred, at);
        let k = choose|k: int| 0 <= k < found.len() && found[k] == rows[at];
        assert(row_ids(found)[k] == rows[at].id@);
        let front = "No connected Studio instance matches "@ + quoted + ". Connected instances:\n"@;
        lemma_bulleted(row_ids(found), rows[at].id@, front, Seq::empty());
        let all = |row: InstanceSummary|
            crate::server::row_connected(row) && crate::server::row_matches(row, query);
        assert forall|i: int| 0 <= i < rows.len() implies !all(#[trigger] rows[i]) by {
            lemma_names(query, rows[i]);
        }
        lemma_none_kept(rows, all);
        assert(row_ids(matching_rows(rows, query)).len() == 0);
        assert(reply->Err_0 =~= front + bullets(row_ids(found)) + Seq::<char>::empty());
    } else if several {
        the_only_named_window_is_selected(selected, request, rows, at);
        let pred = |row: InstanceSummary|
            crate::server::row_connected(row) && crate::server::row_matches(row, query);
        let found = matching_rows(rows, query);
        rows.lemma_filter_contains(pred, at);
        let k = choose|k: int| 0 <= k < found.len() && found[k] == rows[at];
        assert(row_ids(found)[k] == rows[at].id@);
        let front = quoted + " matches more than one Studio instance:\n"@;
        let end = "\nBe more specific (use the placeId or full id)."@;
        lemma_bulleted(row_ids(found), rows[at].id@, front, end);
    }
}

/// Whether a text is the word `auto`, in whatever case.
pub open spec fn is_auto(text: Seq<char>) -> bool {
    &&& text.len() == 4
    &&& text[0] == 'a' || text[0] == 'A'
    &&& text[1] == 'u' || text[1] == 'U'
    &&& text[2] == 't' || text[2] == 'T'
    &&& text[3] == 'o' || text[3] == 'O'
}

/// A request that is empty or says `auto` clears the selection, whatever is connected.
pub proof fn the_selection_can_be_cleared(
    selected: Option<Seq<char>>,
    request: Seq<char>,
    rows: Seq<InstanceSummary>,
)
    requires
        trim_spec(request).len() == 0 || is_auto(trim_spec(request)),
    ensures
        select_spec(selected, request, rows).0 is None,
        select_spec(selected, request, rows).1 is Ok,
{
    auto_counts_in_any_case(trim_spec(request));
}

/// The word `auto` counts in whatever case.
pub proof fn auto_counts_in_any_case(query: Seq<char>)
    ensures
        crate::text::same_ignoring_ascii_case(query, "auto"@) == is_auto(query),
{
    reveal_strlit("auto");
    let auto = "auto"@;
    case_is_all_that_differs(query, auto);
    assert(auto.len() == 4);
    assert(auto[0] == 'a' && auto[1] == 'u' && auto[2] == 't' && auto[3] == 'o');
    if is_auto(query) {
        assert forall|i: int| 0 <= i < query.len() implies {
            ||| #[trigger] query[i] == auto[i]
            ||| 65 <= query[i] as u32 <= 90 && auto[i] as u32 == query[i] as u32 + 32
            ||| 65 <= auto[i] as u32 <= 90 && query[i] as u32 == auto[i] as u32 + 32
        } by {
            assert(i == 0 || i == 1 || i == 2 || i == 3);
        }
    }
    if crate::text::same_ignoring_ascii_case(query, auto) {
        assert(query.len() == 4);
        lemma_either_case(query[0], 'a', 'A');
        lemma_either_case(query[1], 'u', 'U');
        lemma_either_case(query[2], 't', 'T');
        lemma_either_case(query[3], 'o', 'O');
        assert(is_auto(query));
    }
    if is_auto(query) {
        assert(crate::text::same_ignoring_ascii_case(query, auto));
    }
}

proof fn lemma_either_case(c: char, small: char, large: char)
    requires
        97 <= small as u32 <= 122,
        large as u32 + 32 == small as u32,
        c == small || small as u32 == c as u32 + 32,
    ensures
        c == small || c == large,
{
}

proof fn lemma_not_cleared(request: Seq<char>)
    requires
        trim_spec(request).len() > 0,
        !is_auto(trim_spec(request)),
    ensures
        !crate::server::clears(request),
{
    auto_counts_in_any_case(trim_spec(request));
}

proof fn lemma_names(query: Seq<char>, row: InstanceSummary)
    ensures
        crate::server::row_connected(row) == (row.connected_roles@.len() > 0),
        crate::server::row_matches(row, query) == names_row(query, row),
{
    found_text_stands_between(lowercase(row.name@), lowercase(query));
}

proof fn lemma_none_kept(rows: Seq<InstanceSummary>, keep: spec_fn(InstanceSummary) -> bool)
    requires
        forall|i: int| 0 <= i < rows.len() ==> !keep(#[trigger] rows[i]),
    ensures
        rows.filter(keep) == Seq::<InstanceSummary>::empty(),
    decreases rows.len(),
{
    reveal(Seq::filter);
    if rows.len() > 0 {
        assert(rows.last() == rows[rows.len() - 1]);
        lemma_none_kept(rows.drop_last(), keep);
    }
}

proof fn lemma_one_kept(rows: Seq<InstanceSummary>, at: int, keep: spec_fn(InstanceSummary) -> bool)
    requires
        0 <= at < rows.len(),
        keep(rows[at]),
        forall|i: int| 0 <= i < rows.len() && i != at ==> !keep(#[trigger] rows[i]),
    ensures
        rows.filter(keep) == seq![rows[at]],
    decreases rows.len(),
{
    reveal(Seq::filter);
    let shorter = rows.drop_last();
    if at == rows.len() - 1 {
        assert forall|i: int| 0 <= i < shorter.len() implies !keep(#[trigger] shorter[i]) by {
            assert(shorter[i] == rows[i]);
        }
        lemma_none_kept(shorter, keep);
        assert(rows.filter(keep) =~= seq![rows[at]]);
    } else {
        assert(rows.last() == rows[rows.len() - 1]);
        assert(shorter[at] == rows[at]);
        assert forall|i: int| 0 <= i < shorter.len() && i != at implies !keep(#[trigger] shorter[i]) by {
            assert(shorter[i] == rows[i]);
        }
        lemma_one_kept(shorter, at, keep);
    }
}

proof fn lemma_two_kept(
    rows: Seq<InstanceSummary>,
    first: int,
    second: int,
    keep: spec_fn(InstanceSummary) -> bool,
)
    requires
        0 <= first < second < rows.len(),
        keep(rows[first]),
        keep(rows[second]),
    ensures
        rows.filter(keep).len() >= 2,
{
    let front = rows.take(second);
    let back = rows.skip(second);
    assert(rows =~= front + back);
    Seq::filter_distributes_over_add(front, back, keep);
    front.lemma_filter_contains(keep, first);
    back.lemma_filter_contains(keep, 0);
    assert(front[first] == rows[first] && back[0] == rows[second]);
}

/// A request to select a window changes nothing of the router.
pub proof fn selecting_leaves_the_router_alone<C>(
    before: RBXStudioServer<C>,
    after: RBXStudioServer<C>,
    request: Seq<char>,
    rows: Seq<InstanceSummary>,
    reply: Result<Seq<char>, Seq<char>>,
)
    requires
        selects(before, after, request, rows, reply),
    ensures
        after.state@ == before.state@,
        (string_view(after.selected_instance), reply) == select_spec(
            string_view(before.selected_instance),
            request,
            rows,
        ),
{
}

/// The window title to look for is the place's name; an id without a name gives none.
pub proof fn titles_are_found_by_name(place_id: Seq<char>, name: Seq<char>)
    requires
        !place_id.contains('|'),
    ensures
        name.len() > 0 ==> title_hint(Some(place_id + seq!['|'] + name)) == Some(name),
        name.len() == 0 ==> title_hint(Some(place_id + seq!['|'] + name)) is None,
        title_hint(Some(place_id)) is None,
        title_hint(None) is None,
{
    splitting_undoes_joining(place_id, name, '|');
    splitting_takes_apart(place_id, '|');
}

/// While a tool's play session runs, the client renders, and while a tool's run session runs, the
/// server does, whatever has polled. Otherwise a DataModel renders that only a session has, where one
/// has polled within three seconds: the client before the server; and the edit DataModel where none
/// has.
pub proof fn the_session_decides_what_renders(
    instances: Map<Seq<char>, StudioInstance>,
    mode: Seq<char>,
    id: Seq<char>,
    now: u64,
)
    ensures
        ({
            let role = rendering_role_spec(instances, mode, Some(id), now);
            let client = instances.contains_key(id) && (instances[id].client matches Some(at) && now < at
                + 3_000_000_000);
            let server = instances.contains_key(id) && (instances[id].server matches Some(at) && now < at
                + 3_000_000_000);
            let play = trim_spec(mode) == "start_play"@;
            let run = trim_spec(mode) == "run_server"@;
            &&& play ==> role == TargetRole::Client
            &&& run ==> role == TargetRole::Server
            &&& !play && !run && client ==> role == TargetRole::Client
            &&& !play && !run && !client && server ==> role == TargetRole::Server
            &&& !play && !run && !client && !server ==> role == TargetRole::Edit
        }),
        rendering_role_spec(instances, mode, None, now) == rendering_role_spec(
            instances,
            mode,
            Some("default"@),
            now,
        ),
{
    reveal_strlit("start_play");
    reveal_strlit("run_server");
    assert("start_play"@[0] != "run_server"@[0]);
}

/// A tool that follows the session goes to the client in play mode, to the role that is asked for in
/// run mode, and to the edit DataModel otherwise.
pub proof fn the_session_decides_where_tools_go(mode: Seq<char>, run_server_role: TargetRole)
    ensures
        trim_spec(mode) == "start_play"@ ==> play_aware_role_spec(mode, run_server_role)
            == TargetRole::Client,
        trim_spec(mode) == "run_server"@ ==> play_aware_role_spec(mode, run_server_role)
            == run_server_role,
        trim_spec(mode) != "start_play"@ && trim_spec(mode) != "run_server"@ ==> play_aware_role_spec(
            mode,
            run_server_role,
        ) == TargetRole::Edit,
{
    reveal_strlit("start_play");
    reveal_strlit("run_server");
    assert("start_play"@[0] != "run_server"@[0]);
}

/// A context names the DataModel that it is called after, none names the edit DataModel, and every
/// other word is refused by name. No context names the legacy role.
pub proof fn contexts_name_data_models(context: Seq<char>)
    ensures
        parse_context_spec(None) == Ok::<TargetRole, Seq<char>>(TargetRole::Edit),
        parse_context_spec(Some(context)) == Ok::<TargetRole, Seq<char>>(TargetRole::Edit) <==> context
            == seq!['e', 'd', 'i', 't'],
        parse_context_spec(Some(context)) == Ok::<TargetRole, Seq<char>>(TargetRole::Server) <==> context
            == seq!['s', 'e', 'r', 'v', 'e', 'r'],
        parse_context_spec(Some(context)) == Ok::<TargetRole, Seq<char>>(TargetRole::Client) <==> context
            == seq!['c', 'l', 'i', 'e', 'n', 't'],
        parse_context_spec(Some(context)) != Ok::<TargetRole, Seq<char>>(TargetRole::Legacy),
        parse_context_spec(Some(context)) matches Err(message) ==> contains_text(message, context),
{
    reveal_strlit("edit");
    reveal_strlit("server");
    reveal_strlit("client");
    assert("edit"@ =~= seq!['e', 'd', 'i', 't']);
    assert("server"@ =~= seq!['s', 'e', 'r', 'v', 'e', 'r']);
    assert("client"@ =~= seq!['c', 'l', 'i', 'e', 'n', 't']);
    assert("edit"@.len() == 4 && "server"@.len() == 6 && "client"@.len() == 6);
    assert("server"@[0] != "client"@[0]);
    if parse_context_spec(Some(context)) is Err {
        found_text_stands_between(parse_context_spec(Some(context))->Err_0, context);
    }
}

/// The execution modes are `output` and `execute`; none means the first, and every other word is
/// refused by name.
pub proof fn modes_are_output_and_execute(mode: Seq<char>)
    ensures
        validate_mode_spec(None) is Ok,
        validate_mode_spec(Some(mode)) is Ok <==> mode == seq!['o', 'u', 't', 'p', 'u', 't'] || mode
            == seq!['e', 'x', 'e', 'c', 'u', 't', 'e'],
        validate_mode_spec(Some(mode)) matches Err(message) ==> contains_text(message, mode),
{
    reveal_strlit("output");
    reveal_strlit("execute");
    assert("output"@ =~= seq!['o', 'u', 't', 'p', 'u', 't']);
    assert("execute"@ =~= seq!['e', 'x', 'e', 'c', 'u', 't', 'e']);
    if validate_mode_spec(Some(mode)) is Err {
        found_text_stands_between(validate_mode_spec(Some(mode))->Err_0, mode);
    }
}

/// A caller is told the window its command was for and how long ago the DataModel it was for has
/// polled, to the second.
pub proof fn callers_are_told_of_the_last_poll(
    instances: Map<Seq<char>, StudioInstance>,
    id: Seq<char>,
    role: TargetRole,
    now: u64,
    at: u64,
)
    requires
        at <= now,
        instances.contains_key(id),
        match role {
            TargetRole::Edit => instances[id].edit == Some(at),
            TargetRole::Server => instances[id].server == Some(at),
            TargetRole::Client => instances[id].client == Some(at),
            TargetRole::Legacy => false,
        },
    ensures
        ({
            let text = poll_status_spec(instances, Some(id), role, now);
            &&& contains_text(text, display_spec(id))
            &&& contains_text(text, role.title_text())
            &&& contains_text(text, decimal_spec(((now - at) / 1_000_000_000) as nat) + "s ago"@)
        }),
{
    let text = poll_status_spec(instances, Some(id), role, now);
    let age = decimal_spec(((now - at) / 1_000_000_000) as nat);
    let nothing = Seq::<char>::empty();
    let front = "last poll from the "@;
    let title = role.title_text();
    let of = " DataModel of "@;
    let shown = display_spec(id);
    assert(text =~= (front + title + of) + shown + (" was "@ + age + "s ago"@));
    assert(text =~= front + title + (of + shown + " was "@ + age + "s ago"@));
    assert(text =~= (front + title + of + shown + " was "@) + (age + "s ago"@) + nothing);
    found_text_stands_between(text, shown);
    found_text_stands_between(text, title);
    found_text_stands_between(text, age + "s ago"@);
}

/// The names of the DataModels are their own.
pub proof fn roles_are_told_apart(a: TargetRole, b: TargetRole)
    requires
        a != b,
    ensures
        a.title_text() != b.title_text(),
        a.missing_text() != b.missing_text(),
{
    reveal_strlit("Edit");
    reveal_strlit("Server");
    reveal_strlit("Client");
    reveal_strlit("Legacy");
    assert("Edit"@[0] == 'E' && "Server"@[0] == 'S' && "Client"@[0] == 'C' && "Legacy"@[0] == 'L');
    reveal_strlit(
        "The Studio plugin is not connected. Make sure Studio is open with the MCP plugin enabled.",
    );
    reveal_strlit(
        "No play-mode server is connected. Start play mode first with start_stop_play (mode start_play or run_server).",
    );
    reveal_strlit(
        "No play-mode client is connected. Start play mode first with start_stop_play (mode start_play). Note that run_server mode has no client.",
    );
    reveal_strlit("Internal error: command addressed to the legacy role.");
    assert(TargetRole::Edit.missing_text()[0] == 'T');
    assert(TargetRole::Server.missing_text()[13] == 's');
    assert(TargetRole::Server.missing_text()[0] == 'N');
    assert(TargetRole::Client.missing_text()[13] == 'c');
    assert(TargetRole::Client.missing_text()[0] == 'N');
    assert(TargetRole::Legacy.missing_text()[0] == 'I');
}

} // verus!
