use rbx_studio_mcp::role::TargetRole;
use rbx_studio_mcp::routing::InstanceSummary;
use rbx_studio_mcp::server::{
    begin_tool, choose_match, clears_selection, matches_lowered, mode_query, play_aware_role, tool_reply,
    RBXStudioServer, ToolReply, ToolStep, WindowRequest,
};
use rbx_studio_mcp::state::AppState;
use rbx_studio_mcp::tools::{
    find_ui, get_ui_tree, list_prompts, run_code, set_camera, wait_for, FindUi, GetUiTree, ListPrompts,
    RunCode, SetCamera, ToolArgumentValues, ToolPlan, WaitFor,
};

const SEC: u64 = 1_000_000_000;

fn row(id: &str, name: &str, place_id: &str, roles: &[&str]) -> InstanceSummary {
    InstanceSummary {
        id: id.to_string(),
        name: name.to_string(),
        place_id: place_id.to_string(),
        connected_roles: roles.iter().map(|r| r.to_string()).collect(),
        seconds_since_poll: 0,
    }
}

fn rows() -> Vec<InstanceSummary> {
    vec![
        row("0|Place1", "Place1", "0", &["edit"]),
        row("11|Arena", "Arena", "11", &["edit", "server"]),
        row("12|Old arena", "Old arena", "12", &[]),
        row("13|\u{c9}cole 1", "\u{c9}cole 1", "13", &["client"]),
    ]
}

fn server() -> RBXStudioServer<u8> {
    RBXStudioServer::new(AppState::new())
}

fn code(context: Option<&str>, mode: Option<&str>) -> RunCode {
    RunCode {
        command: "print(1)".to_string(),
        context: context.map(|c| c.to_string()),
        mode: mode.map(|m| m.to_string()),
        max_lines: None,
    }
}

fn error_text(step: ToolStep) -> String {
    match step {
        ToolStep::Reply { reply: ToolReply::Error { text } } => text,
        _ => panic!("no error"),
    }
}

#[test]
fn without_known_windows_the_selection_stands() {
    let mut server = server();
    assert_eq!(server.resolve_instance(0), Ok(None));
    server.selected_instance = Some("0|Place1".to_string());
    assert_eq!(server.resolve_instance(0), Ok(Some("0|Place1".to_string())));
}

#[test]
fn the_selected_window_has_to_be_connected() {
    let mut server = server();
    server.state.note_poll("0|Place1", TargetRole::Edit, 0);
    server.state.note_poll("1|Other", TargetRole::Edit, 0);
    assert!(server.resolve_instance(0).unwrap_err().starts_with("Multiple"));
    server.selected_instance = Some("1|Other".to_string());
    assert_eq!(server.resolve_instance(0), Ok(Some("1|Other".to_string())));
    assert_eq!(
        server.resolve_instance(3 * SEC),
        Err("No Roblox Studio instance is connected. Make sure Studio is open with the MCP plugin enabled.".to_string())
    );
}

#[test]
fn a_selected_window_that_is_gone_gives_way_to_the_single_one() {
    let mut server = server();
    server.selected_instance = Some("1|Other".to_string());
    server.state.note_poll("1|Other", TargetRole::Edit, 0);
    server.state.note_poll("0|Place1", TargetRole::Edit, 5 * SEC);
    assert_eq!(server.resolve_instance(5 * SEC), Ok(Some("0|Place1".to_string())));
    assert_eq!(server.window_hint(5 * SEC), Some("Place1".to_string()));
    server.state.note_poll("2|Third", TargetRole::Edit, 5 * SEC);
    assert!(server.resolve_instance(5 * SEC).unwrap_err().starts_with("Multiple"));
    assert_eq!(server.window_hint(5 * SEC), None);
    server.state.note_poll("1|Other", TargetRole::Client, 5 * SEC);
    assert_eq!(server.resolve_instance(5 * SEC), Ok(Some("1|Other".to_string())));
}

#[test]
fn each_client_has_a_selection_of_its_own() {
    let mut first = server();
    let mut second = server();
    first.select_studio_instance("arena", &rows()).unwrap();
    assert_eq!(second.selected_instance, None);
    second.select_studio_instance("place1", &rows()).unwrap();
    assert_eq!(first.selected_instance, Some("11|Arena".to_string()));
    assert_eq!(second.selected_instance, Some("0|Place1".to_string()));
}

#[test]
fn the_single_window_is_used_automatically() {
    let mut server = server();
    server.state.note_poll("0|Place1", TargetRole::Edit, 0);
    assert_eq!(server.resolve_instance(0), Ok(Some("0|Place1".to_string())));
    assert_eq!(server.window_hint(0), Some("Place1".to_string()));
}

#[test]
fn windows_are_selected_by_name_place_or_id() {
    for (request, chosen, shown) in [
        ("place1", "0|Place1", "Place1 (placeId 0)"),
        ("  11 ", "11|Arena", "Arena (placeId 11)"),
        ("ARENA", "11|Arena", "Arena (placeId 11)"),
        ("13|\u{c9}cole 1", "13|\u{c9}cole 1", "\u{c9}cole 1 (placeId 13)"),
        ("\u{e9}COLE", "13|\u{c9}cole 1", "\u{c9}cole 1 (placeId 13)"),
    ] {
        let mut server = server();
        assert_eq!(
            server.select_studio_instance(request, &rows()),
            Ok(format!("Now operating on Studio instance: {shown}"))
        );
        assert_eq!(server.selected_instance, Some(chosen.to_string()));
    }
}

#[test]
fn a_selection_that_fails_changes_nothing() {
    let mut server = server();
    server.selected_instance = Some("0|Place1".to_string());
    assert_eq!(
        server.select_studio_instance("old \"x\"", &rows()),
        Err("No connected Studio instance matches \"old \\\"x\\\"\". Connected instances:\n- Place1 (placeId 0)\n- Arena (placeId 11)\n- \u{c9}cole 1 (placeId 13)".to_string())
    );
    assert_eq!(
        server.select_studio_instance("12", &vec![]),
        Err("No connected Studio instance matches \"12\". Connected instances:\n(none)".to_string())
    );
    assert_eq!(
        server.select_studio_instance("1", &rows()),
        Err("\"1\" matches more than one Studio instance:\n- Place1 (placeId 0)\n- \u{c9}cole 1 (placeId 13)\nBe more specific (use the placeId or full id).".to_string())
    );
    assert_eq!(server.selected_instance, Some("0|Place1".to_string()));
}

#[test]
fn auto_clears_the_selection() {
    for request in ["auto", " AUTO\n", "", "  "] {
        assert!(clears_selection(request));
        let mut server = server();
        server.selected_instance = Some("0|Place1".to_string());
        assert_eq!(
            server.select_studio_instance(request, &rows()),
            Ok("Selection cleared: the single connected Studio instance will be used automatically.".to_string())
        );
        assert_eq!(server.selected_instance, None);
    }
    assert!(!clears_selection("automatic"));
}

#[test]
fn listings_mark_the_selection() {
    let mut server = server();
    server.selected_instance = Some("11|Arena".to_string());
    let listing = server.list_studio_instances(rows());
    let marks: Vec<bool> = listing.instances.iter().map(|i| i.selected).collect();
    assert_eq!(marks, vec![false, true, false, false]);
    assert_eq!(listing.instances[2].summary.id, "12|Old arena");
    assert_eq!(listing.selection, Some("Arena (placeId 11)".to_string()));
    assert_eq!(
        listing.note,
        "A single connected instance is used automatically; otherwise pick one with select_studio_instance (by name or placeId)."
    );
    server.selected_instance = None;
    assert_eq!(server.list_studio_instances(rows()).selection, None);
}

#[test]
fn window_requests() {
    let mut server = server();
    assert!(matches!(server.studio_window("status", None, 0), Ok(WindowRequest::Status)));
    assert!(matches!(
        server.studio_window("restore", Some("Arena".to_string()), 0),
        Ok(WindowRequest::Restore { hint: Some(hint) }) if hint == "Arena"
    ));
    assert!(matches!(
        server.studio_window("focus", None, 0),
        Ok(WindowRequest::Restore { hint: None })
    ));
    server.selected_instance = Some("11|Arena".to_string());
    assert!(matches!(
        server.studio_window("focus", None, 0),
        Ok(WindowRequest::Restore { hint: Some(hint) }) if hint == "Arena"
    ));
    assert_eq!(
        server.studio_window("close", None, 0).map(|_| ()),
        Err("Invalid action 'close': must be status or restore".to_string())
    );
    server.selected_instance = Some("11|".to_string());
    assert_eq!(server.window_hint(0), None);
    server.selected_instance = Some("1|A|B".to_string());
    assert_eq!(server.window_hint(0), Some("A|B".to_string()));
    server.selected_instance = Some("plain".to_string());
    assert_eq!(server.window_hint(0), None);
}

#[test]
fn the_mode_picks_the_role() {
    assert_eq!(play_aware_role(" start_play\n", TargetRole::Server), TargetRole::Client);
    assert_eq!(play_aware_role("run_server", TargetRole::Server), TargetRole::Server);
    assert_eq!(play_aware_role("run_server", TargetRole::Edit), TargetRole::Edit);
    assert_eq!(play_aware_role("stop", TargetRole::Server), TargetRole::Edit);
}

#[test]
fn polls_decide_what_renders_when_stopped() {
    let mut server = server();
    assert_eq!(server.rendering_role("start_play ", Some("a"), 0), ("start_play".to_string(), TargetRole::Client));
    assert_eq!(server.rendering_role("run_server", Some("a"), 0).1, TargetRole::Server);
    assert_eq!(server.rendering_role("stop", Some("a"), 0).1, TargetRole::Edit);
    server.state.note_poll("a", TargetRole::Server, 0);
    assert_eq!(server.rendering_role("stop", Some("a"), 0).1, TargetRole::Server);
    server.state.note_poll("a", TargetRole::Client, 0);
    assert_eq!(server.rendering_role("stop", Some("a"), 0).1, TargetRole::Client);
    assert_eq!(server.rendering_role("stop", None, 0).1, TargetRole::Edit);
    server.state.note_poll("default", TargetRole::Client, 0);
    assert_eq!(server.rendering_role("stop", None, 0).1, TargetRole::Client);
}

#[test]
fn plans_are_carried_out() {
    let resolved = || Ok(Some("a".to_string()));
    assert_eq!(
        error_text(begin_tool(run_code(code(Some("x"), None)), Err("no window".to_string()))),
        "Invalid context 'x': must be one of edit, server, or client"
    );
    assert_eq!(
        error_text(begin_tool(run_code(code(None, None)), Err("no window".to_string()))),
        "no window"
    );
    match begin_tool(run_code(code(Some("client"), Some("execute"))), resolved()) {
        ToolStep::Execute { args: ToolArgumentValues::RunCode(args), target, instance } => {
            assert_eq!(args.command, "print(1)");
            assert_eq!(target, TargetRole::Client);
            assert_eq!(instance, Some("a".to_string()));
        }
        _ => panic!("not executed"),
    }
    let wait = |context: Option<&str>| WaitFor {
        condition: "return true".to_string(),
        timeout: None,
        poll_interval: None,
        context: context.map(|c| c.to_string()),
    };
    assert_eq!(
        error_text(begin_tool(wait_for(wait(Some("x"))), Err("no window".to_string()))),
        "no window"
    );
    assert_eq!(
        error_text(begin_tool(wait_for(wait(Some("x"))), resolved())),
        "Invalid context 'x': must be one of edit, server, or client"
    );
    assert!(matches!(
        wait_for(wait(Some("edit"))),
        ToolPlan::Run { target: TargetRole::Edit, .. }
    ));
    assert!(matches!(
        wait_for(wait(None)),
        ToolPlan::PlayAware { run_server_role: TargetRole::Server, .. }
    ));
}

fn answered(plan: ToolPlan, mode: Result<String, String>) -> Result<TargetRole, String> {
    let server = server();
    match begin_tool(plan, Ok(Some("a".to_string()))) {
        ToolStep::AskMode { pending } => match server.mode_answered(pending, mode, 0) {
            ToolStep::Execute { target, instance, .. } => {
                assert_eq!(instance, Some("a".to_string()));
                Ok(target)
            }
            step => Err(error_text(step)),
        },
        _ => panic!("the mode does not matter"),
    }
}

#[test]
fn the_answered_mode_leads_to_the_command() {
    let tree = || get_ui_tree(GetUiTree { root: None, max_depth: None, include_invisible: None });
    let find = || {
        find_ui(FindUi {
            text: None,
            name: None,
            class: None,
            root: None,
            include_offscreen: None,
            limit: None,
        })
    };
    let prompts = || list_prompts(ListPrompts { max_distance: None, limit: None });
    let camera = || {
        set_camera(SetCamera {
            action: "get".to_string(),
            x: None,
            y: None,
            z: None,
            target_path: None,
            target_x: None,
            target_y: None,
            target_z: None,
            fov: None,
        })
    };
    let mode = |m: &str| Ok(m.to_string());
    assert_eq!(answered(tree(), mode("start_play")), Ok(TargetRole::Client));
    assert_eq!(answered(tree(), mode("run_server")), Ok(TargetRole::Edit));
    assert_eq!(answered(find(), mode("run_server")), Ok(TargetRole::Edit));
    assert_eq!(answered(prompts(), mode("run_server")), Ok(TargetRole::Server));
    assert_eq!(answered(prompts(), mode("stop")), Ok(TargetRole::Edit));
    assert_eq!(answered(camera(), mode("run_server")), Ok(TargetRole::Server));
    assert_eq!(answered(camera(), Err("timeout".to_string())), Err("timeout".to_string()));
    assert!(matches!(mode_query(), ToolArgumentValues::GetStudioMode(_)));
}

#[test]
fn results_become_replies() {
    assert!(matches!(tool_reply(Ok("a".to_string())), ToolReply::Success { text } if text == "a"));
    assert!(matches!(tool_reply(Err("b".to_string())), ToolReply::Error { text } if text == "b"));
}

#[test]
fn matches_go_by_id_place_or_part_of_the_name() {
    let arena = row("11|Arena", "Arena", "11", &[]);
    assert!(matches_lowered(&arena, "arena", "11|Arena", "x"));
    assert!(matches_lowered(&arena, "arena", "11", "x"));
    assert!(matches_lowered(&arena, "arena", "ren", "ren"));
    assert!(!matches_lowered(&arena, "arena", "1", "1"));
    assert!(!matches_lowered(&arena, "arena", "11|arena", "11|arena"));
}

#[test]
fn exactly_one_match_is_chosen() {
    let ids = |list: &[&str]| list.iter().map(|id| id.to_string()).collect::<Vec<String>>();
    assert_eq!(
        choose_match("\"q\"", &ids(&["1|a", "2|b"]), &ids(&["2|b"])),
        Ok(("2|b".to_string(), "Now operating on Studio instance: b (placeId 2)".to_string()))
    );
    assert_eq!(
        choose_match("\"q\"", &ids(&["1|a", "2|b"]), &ids(&[])),
        Err("No connected Studio instance matches \"q\". Connected instances:\n- a (placeId 1)\n- b (placeId 2)".to_string())
    );
    assert_eq!(
        choose_match("\"q\"", &ids(&["1|a", "2|b"]), &ids(&["1|a", "2|b"])),
        Err("\"q\" matches more than one Studio instance:\n- a (placeId 1)\n- b (placeId 2)\nBe more specific (use the placeId or full id).".to_string())
    );
}
