use rbx_studio_mcp::role::TargetRole;
use rbx_studio_mcp::tools::{
    click_object, click_ui, control_character, get_console_output, get_errors, get_studio_mode, input_sequence,
    insert_model, mouse_drag, mouse_move, run_code, run_code_from_file, run_script, run_script_in_play_mode,
    script_target, send_key, send_text, start_stop_play, ClickObject, ClickUi, ControlCharacter, GetConsoleOutput, GetErrors,
    GetStudioMode, InputSequence, InsertModel, MouseDrag, MouseMove, RunCode, RunCodeFromFile,
    RunScriptInPlayMode, SendKey, SendText, StartStopPlay, ToolArgumentValues, ToolPlan,
};

fn file(context: Option<&str>, mode: Option<&str>) -> RunCodeFromFile {
    RunCodeFromFile {
        path: "C:\\a.luau".to_string(),
        context: context.map(|c| c.to_string()),
        mode: mode.map(|m| m.to_string()),
        max_lines: Some(3),
    }
}

fn refusal(plan: ToolPlan) -> String {
    match plan {
        ToolPlan::Refuse { message } => message,
        _ => panic!("not refused"),
    }
}

fn target(plan: ToolPlan) -> TargetRole {
    match plan {
        ToolPlan::Run { target, .. } => target,
        _ => panic!("not run"),
    }
}

#[test]
fn code_is_checked_before_it_runs() {
    let code = |context: Option<&str>, mode: Option<&str>| RunCode {
        command: String::new(),
        context: context.map(|c| c.to_string()),
        mode: mode.map(|m| m.to_string()),
        max_lines: None,
    };
    assert_eq!(target(run_code(code(Some("server"), None))), TargetRole::Server);
    assert_eq!(
        refusal(run_code(code(Some("x"), Some("y")))),
        "Invalid context 'x': must be one of edit, server, or client"
    );
    assert_eq!(
        refusal(run_code(code(None, Some("y")))),
        "Invalid mode 'y': must be output or execute"
    );
}

#[test]
fn script_files_are_run_as_code() {
    match run_code_from_file(file(Some("client"), Some("execute")), Ok("return 1".to_string())) {
        ToolPlan::Run { args: ToolArgumentValues::RunCode(code), target } => {
            assert_eq!(target, TargetRole::Client);
            assert_eq!(code.command, "return 1");
            assert_eq!(code.context, Some("client".to_string()));
            assert_eq!(code.mode, Some("execute".to_string()));
            assert_eq!(code.max_lines, Some(3));
        }
        _ => panic!("not run"),
    }
}

#[test]
fn script_files_are_checked() {
    assert_eq!(script_target(&file(None, None)), Ok(TargetRole::Edit));
    assert_eq!(
        script_target(&file(Some("x"), None)),
        Err("Invalid context 'x': must be one of edit, server, or client".to_string())
    );
    assert_eq!(
        refusal(run_code_from_file(file(None, Some("x")), Ok("return 1".to_string()))),
        "Invalid mode 'x': must be output or execute"
    );
    assert_eq!(
        refusal(run_code_from_file(file(None, None), Err("not found".to_string()))),
        "Could not read script file \"C:\\\\a.luau\": not found"
    );
    assert_eq!(
        refusal(run_code_from_file(file(None, None), Ok(" \n\t".to_string()))),
        "Script file \"C:\\\\a.luau\" is empty."
    );
}

#[test]
fn reads_go_where_the_context_says() {
    let console = |context: Option<&str>| GetConsoleOutput {
        context: context.map(|c| c.to_string()),
        since_seq: None,
        level: None,
        limit: None,
    };
    let errors = |context: Option<&str>| GetErrors {
        context: context.map(|c| c.to_string()),
        since_seq: None,
        limit: None,
    };
    assert_eq!(target(get_console_output(console(Some("client")))), TargetRole::Client);
    assert_eq!(target(get_errors(errors(None))), TargetRole::Edit);
    assert_eq!(
        refusal(get_console_output(console(Some("x")))),
        "Invalid context 'x': must be one of edit, server, or client"
    );
    assert_eq!(
        refusal(get_errors(errors(Some("y")))),
        "Invalid context 'y': must be one of edit, server, or client"
    );
}

#[test]
fn some_tools_go_to_the_edit_datamodel() {
    assert_eq!(target(insert_model(InsertModel { query: "x".to_string() })), TargetRole::Edit);
    assert_eq!(target(start_stop_play(StartStopPlay { mode: "stop".to_string() })), TargetRole::Edit);
    let script =
        RunScriptInPlayMode { code: String::new(), timeout: None, mode: "start_play".to_string() };
    assert_eq!(target(run_script_in_play_mode(script)), TargetRole::Edit);
    assert_eq!(target(get_studio_mode(GetStudioMode {})), TargetRole::Edit);
}

#[test]
fn input_goes_to_the_client() {
    let click = ClickUi { path: None, x: None, y: None, button: None, action: None, force: None };
    assert_eq!(target(click_ui(click)), TargetRole::Client);
    let key = SendKey { key: "W".to_string(), action: None, duration: None };
    assert_eq!(target(send_key(key)), TargetRole::Client);
    let text = SendText { text: "x".to_string(), textbox_path: None, submit: None };
    assert_eq!(target(send_text(text)), TargetRole::Client);
    assert_eq!(target(mouse_move(MouseMove { path: None, x: None, y: None })), TargetRole::Client);
    let drag = MouseDrag {
        from_path: None,
        from_x: None,
        from_y: None,
        to_path: None,
        to_x: None,
        to_y: None,
        button: None,
        duration: None,
        steps: None,
    };
    assert_eq!(target(mouse_drag(drag)), TargetRole::Client);
    let object = ClickObject { path: "P".to_string(), button: None, action: None, force: None };
    assert_eq!(target(click_object(object)), TargetRole::Client);
    assert_eq!(target(input_sequence(InputSequence { steps: vec![] })), TargetRole::Client);
    let character =
        ControlCharacter { action: "jump".to_string(), x: None, y: None, z: None, duration: None };
    assert_eq!(target(control_character(character)), TargetRole::Client);
}

#[test]
fn messages_write_the_path_as_told() {
    assert_eq!(
        refusal(run_script(file(None, None), "<path>", Err("gone".to_string()))),
        "Could not read script file <path>: gone"
    );
    assert_eq!(
        refusal(run_script(file(None, None), "<path>", Ok("\n".to_string()))),
        "Script file <path> is empty."
    );
    assert_eq!(
        target(run_script(file(Some("server"), None), "<path>", Ok("return".to_string()))),
        TargetRole::Server
    );
}
