//! The tools: their arguments, and which DataModel each of them goes to.

use crate::binary64::Real;
use crate::role::{parse_context, parse_context_spec, validate_mode, validate_mode_spec, TargetRole};
use crate::text::{as_deref, debug_text, message_view, quoted, string_view, trim, trim_spec};
use vstd::prelude::*;

verus! {

/// Luau code to run in one DataModel.
#[derive(Debug)]
pub struct RunCode {
    pub command: String,
    pub context: Option<String>,
    pub mode: Option<String>,
    pub max_lines: Option<u32>,
}

/// A Luau script file to run in one DataModel.
#[derive(Debug)]
pub struct RunCodeFromFile {
    pub path: String,
    pub context: Option<String>,
    pub mode: Option<String>,
    pub max_lines: Option<u32>,
}

/// A marketplace query whose first model is inserted.
#[derive(Debug)]
pub struct InsertModel {
    pub query: String,
}

/// Which console entries to read, and from which DataModel.
#[derive(Debug)]
pub struct GetConsoleOutput {
    pub context: Option<String>,
    pub since_seq: Option<u64>,
    pub level: Option<String>,
    pub limit: Option<u32>,
}

/// Which script errors to read, and from which DataModel.
#[derive(Debug)]
pub struct GetErrors {
    pub context: Option<String>,
    pub since_seq: Option<u64>,
    pub limit: Option<u32>,
}

/// Asks for the current Studio mode.
#[derive(Debug)]
pub struct GetStudioMode {
}

/// The mode to start or stop.
#[derive(Debug)]
pub struct StartStopPlay {
    pub mode: String,
}

/// A script to run once in play mode, with its time limit in seconds.
#[derive(Debug)]
pub struct RunScriptInPlayMode {
    pub code: String,
    pub timeout: Option<u32>,
    pub mode: String,
}

/// What to capture, and how to hand it over.
#[derive(Debug)]
pub struct TakeScreenshot {
    pub ui_path: Option<String>,
    pub isolate: Option<bool>,
    pub max_dimension: Option<u32>,
    pub format: Option<String>,
    pub park_mouse: Option<bool>,
    pub save_to_file: Option<bool>,
}

/// The first half of a screenshot: capture on the rendering DataModel.
#[derive(Debug)]
pub struct TakeScreenshotCapture {
    pub ui_path: Option<String>,
    pub isolate: Option<bool>,
    pub park_mouse: Option<bool>,
}

/// A rectangle of a capture.
#[derive(Clone, Copy, Debug)]
pub struct PixelRect {
    pub x: Real,
    pub y: Real,
    pub w: Real,
    pub h: Real,
}

/// The second half of a screenshot: read the captured pixels.
#[derive(Debug)]
pub struct TakeScreenshotRead {
    pub content_id: String,
    pub viewport_w: Real,
    pub viewport_h: Real,
    pub rect: Option<PixelRect>,
}

/// Which part of the UI hierarchy to list.
#[derive(Debug)]
pub struct GetUiTree {
    pub root: Option<String>,
    pub max_depth: Option<u32>,
    pub include_invisible: Option<bool>,
}

/// A click on a UI element or a viewport position.
#[derive(Debug)]
pub struct ClickUi {
    pub path: Option<String>,
    pub x: Option<Real>,
    pub y: Option<Real>,
    pub button: Option<String>,
    pub action: Option<String>,
    pub force: Option<bool>,
}

/// A search among the UI elements.
#[derive(Debug)]
pub struct FindUi {
    pub text: Option<String>,
    pub name: Option<String>,
    pub class: Option<String>,
    pub root: Option<String>,
    pub include_offscreen: Option<bool>,
    pub limit: Option<u32>,
}

/// Which nearby prompts to list.
#[derive(Debug)]
pub struct ListPrompts {
    pub max_distance: Option<Real>,
    pub limit: Option<u32>,
}

/// A key press, with the seconds it is held.
#[derive(Debug)]
pub struct SendKey {
    pub key: String,
    pub action: Option<String>,
    pub duration: Option<Real>,
}

/// Text to type.
#[derive(Debug)]
pub struct SendText {
    pub text: String,
    pub textbox_path: Option<String>,
    pub submit: Option<bool>,
}

/// A character action, with its time limit or length in seconds.
#[derive(Debug)]
pub struct ControlCharacter {
    pub action: String,
    pub x: Option<Real>,
    pub y: Option<Real>,
    pub z: Option<Real>,
    pub duration: Option<Real>,
}

/// Where to move the pointer.
#[derive(Debug)]
pub struct MouseMove {
    pub path: Option<String>,
    pub x: Option<Real>,
    pub y: Option<Real>,
}

/// A drag from one point to another, with the seconds it takes.
#[derive(Debug)]
pub struct MouseDrag {
    pub from_path: Option<String>,
    pub from_x: Option<Real>,
    pub from_y: Option<Real>,
    pub to_path: Option<String>,
    pub to_x: Option<Real>,
    pub to_y: Option<Real>,
    pub button: Option<String>,
    pub duration: Option<Real>,
    pub steps: Option<u32>,
}

/// A click on an object of the workspace.
#[derive(Debug)]
pub struct ClickObject {
    pub path: String,
    pub button: Option<String>,
    pub action: Option<String>,
    pub force: Option<bool>,
}

/// Where to put the camera and what to aim it at.
#[derive(Debug)]
pub struct SetCamera {
    pub action: String,
    pub x: Option<Real>,
    pub y: Option<Real>,
    pub z: Option<Real>,
    pub target_path: Option<String>,
    pub target_x: Option<Real>,
    pub target_y: Option<Real>,
    pub target_z: Option<Real>,
    pub fov: Option<Real>,
}

/// One step of an input sequence.
#[derive(Debug)]
pub struct InputStep {
    pub action: String,
    pub path: Option<String>,
    pub x: Option<Real>,
    pub y: Option<Real>,
    pub from_path: Option<String>,
    pub from_x: Option<Real>,
    pub from_y: Option<Real>,
    pub to_path: Option<String>,
    pub to_x: Option<Real>,
    pub to_y: Option<Real>,
    pub button: Option<String>,
    pub mode: Option<String>,
    pub key: Option<String>,
    pub duration: Option<Real>,
    pub text: Option<String>,
    pub textbox_path: Option<String>,
    pub submit: Option<bool>,
    pub seconds: Option<Real>,
    pub force: Option<bool>,
    pub steps: Option<u32>,
}

/// Input steps that run in one call.
#[derive(Debug)]
pub struct InputSequence {
    pub steps: Vec<InputStep>,
}

/// A condition to wait for, with the time limit in seconds.
#[derive(Debug)]
pub struct WaitFor {
    pub condition: String,
    pub timeout: Option<Real>,
    pub poll_interval: Option<Real>,
    pub context: Option<String>,
}

/// A command for the plugin, with its arguments.
#[derive(Debug)]
pub enum ToolArgumentValues {
    RunCode(RunCode),
    InsertModel(InsertModel),
    GetConsoleOutput(GetConsoleOutput),
    StartStopPlay(StartStopPlay),
    RunScriptInPlayMode(RunScriptInPlayMode),
    GetStudioMode(GetStudioMode),
    TakeScreenshotCapture(TakeScreenshotCapture),
    TakeScreenshotRead(TakeScreenshotRead),
    GetUiTree(GetUiTree),
    ClickUi(ClickUi),
    FindUi(FindUi),
    ListPrompts(ListPrompts),
    GetErrors(GetErrors),
    MouseMove(MouseMove),
    MouseDrag(MouseDrag),
    ClickObject(ClickObject),
    SetCamera(SetCamera),
    InputSequence(InputSequence),
    SendKey(SendKey),
    SendText(SendText),
    ControlCharacter(ControlCharacter),
    WaitFor(WaitFor),
}

/// How a tool call is carried out.
pub enum ToolPlan {
    /// The arguments are refused before anything is sent.
    Refuse { message: String },
    /// The arguments are refused once the Studio window has been resolved.
    RefuseResolved { message: String },
    /// The command goes to a fixed role.
    Run { args: ToolArgumentValues, target: TargetRole },
    /// The command goes to the client during play, to `run_server_role` in run mode and to the edit
    /// DataModel otherwise.
    PlayAware { args: ToolArgumentValues, run_server_role: TargetRole },
    /// The command goes to the DataModel that owns the rendered viewport.
    Rendering { args: ToolArgumentValues },
}

/// A plan that refuses with this message.
pub open spec fn refuses(plan: ToolPlan, message: Seq<char>) -> bool {
    plan matches ToolPlan::Refuse { message: m } && m@ == message
}

impl ToolPlan {
    /// The roles a plan may send its command to: never the legacy role.
    pub open spec fn addresses(self, role: TargetRole) -> bool {
        match self {
            ToolPlan::Refuse { .. } => false,
            ToolPlan::RefuseResolved { .. } => false,
            ToolPlan::Run { target, .. } => role == target,
            ToolPlan::PlayAware { run_server_role, .. } => {
                ||| role == TargetRole::Client
                ||| role == run_server_role
                ||| role == TargetRole::Edit
            },
            ToolPlan::Rendering { .. } => role != TargetRole::Legacy,
        }
    }
}

/// Runs code: the context picks the DataModel, and a context or mode that does not exist is refused.
pub fn run_code(args: RunCode) -> (plan: ToolPlan)
    ensures
        !plan.addresses(TargetRole::Legacy),
        match parse_context_spec(string_view(args.context)) {
            Err(message) => refuses(plan, message),
            Ok(target) => match validate_mode_spec(string_view(args.mode)) {
                Err(message) => refuses(plan, message),
                Ok(_) => plan == (ToolPlan::Run { args: ToolArgumentValues::RunCode(args), target }),
            },
        },
{
    let target = match parse_context(as_deref(&args.context)) {
        Ok(target) => target,
        Err(message) => return ToolPlan::Refuse { message },
    };
    if let Err(message) = validate_mode(as_deref(&args.mode)) {
        return ToolPlan::Refuse { message };
    }
    ToolPlan::Run { args: ToolArgumentValues::RunCode(args), target }
}

/// Whether a script file is worth reading: the DataModel its code will run in, or the message that
/// refuses the context or the mode.
pub open spec fn script_target_spec(context: Option<Seq<char>>, mode: Option<Seq<char>>) -> Result<
    TargetRole,
    Seq<char>,
> {
    match parse_context_spec(context) {
        Err(message) => Err(message),
        Ok(target) => match validate_mode_spec(mode) {
            Err(message) => Err(message),
            Ok(_) => Ok(target),
        },
    }
}

/// Checks the arguments of `run_code_from_file` before the file is read.
pub fn script_target(args: &RunCodeFromFile) -> (target: Result<TargetRole, String>)
    ensures
        message_view(target) == script_target_spec(
            string_view(args.context),
            string_view(args.mode),
        ),
        target matches Ok(role) ==> role != TargetRole::Legacy,
{
    let target = match parse_context(as_deref(&args.context)) {
        Ok(target) => target,
        Err(message) => return Err(message),
    };
    match validate_mode(as_deref(&args.mode)) {
        Ok(_) => Ok(target),
        Err(message) => Err(message),
    }
}

/// Whether a plan runs the code of a script file: like `run_code` with what the file holds, unless
/// the file could not be read or holds nothing but white space. `quoted_path` is how messages write
/// the file's path.
pub open spec fn follows_script(
    plan: ToolPlan,
    args: RunCodeFromFile,
    quoted_path: Seq<char>,
    contents: Result<String, String>,
) -> bool {
    match script_target_spec(string_view(args.context), string_view(args.mode)) {
        Err(message) => refuses(plan, message),
        Ok(target) => match contents {
            Err(reason) => refuses(plan, "Could not read script file "@ + quoted_path + ": "@ + reason@),
            Ok(command) => if trim_spec(command@).len() == 0 {
                refuses(plan, "Script file "@ + quoted_path + " is empty."@)
            } else {
                plan == (ToolPlan::Run {
                    args: ToolArgumentValues::RunCode(
                        RunCode {
                            command,
                            context: args.context,
                            mode: args.mode,
                            max_lines: args.max_lines,
                        },
                    ),
                    target,
                })
            },
        },
    }
}

/// Runs the code of a script file whose path messages write as `quoted_path`.
pub fn run_script(args: RunCodeFromFile, quoted_path: &str, contents: Result<String, String>) -> (plan: ToolPlan)
    ensures
        !plan.addresses(TargetRole::Legacy),
        follows_script(plan, args, quoted_path@, contents),
{
    let target = match script_target(&args) {
        Ok(target) => target,
        Err(message) => return ToolPlan::Refuse { message },
    };
    let command = match contents {
        Ok(command) => command,
        Err(reason) => {
            let mut message = "Could not read script file ".to_owned();
            message.append(quoted_path);
            message.append(": ");
            message.append(reason.as_str());
            return ToolPlan::Refuse { message };
        },
    };
    if trim(command.as_str()).is_empty() {
        let mut message = "Script file ".to_owned();
        message.append(quoted_path);
        message.append(" is empty.");
        return ToolPlan::Refuse { message };
    }
    ToolPlan::Run {
        args: ToolArgumentValues::RunCode(
            RunCode { command, context: args.context, mode: args.mode, max_lines: args.max_lines },
        ),
        target,
    }
}

/// Runs the code of a script file. `contents` is what the file holds, or why it could not be read.
pub fn run_code_from_file(args: RunCodeFromFile, contents: Result<String, String>) -> (plan: ToolPlan)
    ensures
        !plan.addresses(TargetRole::Legacy),
        follows_script(plan, args, debug_text(args.path@), contents),
{
    let path = quoted(args.path.as_str());
    run_script(args, path.as_str(), contents)
}

/// Reads from the DataModel that the context picks; a context that does not exist is refused.
pub fn get_console_output(args: GetConsoleOutput) -> (plan: ToolPlan)
    ensures
        !plan.addresses(TargetRole::Legacy),
        match parse_context_spec(string_view(args.context)) {
            Err(message) => refuses(plan, message),
            Ok(target) => plan == (ToolPlan::Run {
                args: ToolArgumentValues::GetConsoleOutput(args),
                target,
            }),
        },
{
    match parse_context(as_deref(&args.context)) {
        Ok(target) => ToolPlan::Run { args: ToolArgumentValues::GetConsoleOutput(args), target },
        Err(message) => ToolPlan::Refuse { message },
    }
}

/// Reads from the DataModel that the context picks; a context that does not exist is refused.
pub fn get_errors(args: GetErrors) -> (plan: ToolPlan)
    ensures
        !plan.addresses(TargetRole::Legacy),
        match parse_context_spec(string_view(args.context)) {
            Err(message) => refuses(plan, message),
            Ok(target) => plan == (ToolPlan::Run {
                args: ToolArgumentValues::GetErrors(args),
                target,
            }),
        },
{
    match parse_context(as_deref(&args.context)) {
        Ok(target) => ToolPlan::Run { args: ToolArgumentValues::GetErrors(args), target },
        Err(message) => ToolPlan::Refuse { message },
    }
}

/// Goes to the edit DataModel.
pub fn insert_model(args: InsertModel) -> (plan: ToolPlan)
    ensures
        plan == (ToolPlan::Run {
            args: ToolArgumentValues::InsertModel(args),
            target: TargetRole::Edit,
        }),
{
    ToolPlan::Run { args: ToolArgumentValues::InsertModel(args), target: TargetRole::Edit }
}

/// Goes to the edit DataModel.
pub fn start_stop_play(args: StartStopPlay) -> (plan: ToolPlan)
    ensures
        plan == (ToolPlan::Run {
            args: ToolArgumentValues::StartStopPlay(args),
            target: TargetRole::Edit,
        }),
{
    ToolPlan::Run { args: ToolArgumentValues::StartStopPlay(args), target: TargetRole::Edit }
}

/// Goes to the edit DataModel.
pub fn run_script_in_play_mode(args: RunScriptInPlayMode) -> (plan: ToolPlan)
    ensures
        plan == (ToolPlan::Run {
            args: ToolArgumentValues::RunScriptInPlayMode(args),
            target: TargetRole::Edit,
        }),
{
    ToolPlan::Run { args: ToolArgumentValues::RunScriptInPlayMode(args), target: TargetRole::Edit }
}

/// Goes to the edit DataModel.
pub fn get_studio_mode(args: GetStudioMode) -> (plan: ToolPlan)
    ensures
        plan == (ToolPlan::Run {
            args: ToolArgumentValues::GetStudioMode(args),
            target: TargetRole::Edit,
        }),
{
    ToolPlan::Run { args: ToolArgumentValues::GetStudioMode(args), target: TargetRole::Edit }
}

/// Goes to the play-mode client.
pub fn click_ui(args: ClickUi) -> (plan: ToolPlan)
    ensures
        plan == (ToolPlan::Run {
            args: ToolArgumentValues::ClickUi(args),
            target: TargetRole::Client,
        }),
{
    ToolPlan::Run { args: ToolArgumentValues::ClickUi(args), target: TargetRole::Client }
}

/// Goes to the play-mode client.
pub fn send_key(args: SendKey) -> (plan: ToolPlan)
    ensures
        plan == (ToolPlan::Run {
            args: ToolArgumentValues::SendKey(args),
            target: TargetRole::Client,
        }),
{
    ToolPlan::Run { args: ToolArgumentValues::SendKey(args), target: TargetRole::Client }
}

/// Goes to the play-mode client.
pub fn send_text(args: SendText) -> (plan: ToolPlan)
    ensures
        plan == (ToolPlan::Run {
            args: ToolArgumentValues::SendText(args),
            target: TargetRole::Client,
        }),
{
    ToolPlan::Run { args: ToolArgumentValues::SendText(args), target: TargetRole::Client }
}

/// Goes to the play-mode client.
pub fn mouse_move(args: MouseMove) -> (plan: ToolPlan)
    ensures
        plan == (ToolPlan::Run {
            args: ToolArgumentValues::MouseMove(args),
            target: TargetRole::Client,
        }),
{
    ToolPlan::Run { args: ToolArgumentValues::MouseMove(args), target: TargetRole::Client }
}

/// Goes to the play-mode client.
pub fn mouse_drag(args: MouseDrag) -> (plan: ToolPlan)
    ensures
        plan == (ToolPlan::Run {
            args: ToolArgumentValues::MouseDrag(args),
            target: TargetRole::Client,
        }),
{
    ToolPlan::Run { args: ToolArgumentValues::MouseDrag(args), target: TargetRole::Client }
}

/// Goes to the play-mode client.
pub fn click_object(args: ClickObject) -> (plan: ToolPlan)
    ensures
        plan == (ToolPlan::Run {
            args: ToolArgumentValues::ClickObject(args),
            target: TargetRole::Client,
        }),
{
    ToolPlan::Run { args: ToolArgumentValues::ClickObject(args), target: TargetRole::Client }
}

/// Goes to the play-mode client.
pub fn input_sequence(args: InputSequence) -> (plan: ToolPlan)
    ensures
        plan == (ToolPlan::Run {
            args: ToolArgumentValues::InputSequence(args),
            target: TargetRole::Client,
        }),
{
    ToolPlan::Run { args: ToolArgumentValues::InputSequence(args), target: TargetRole::Client }
}

/// Goes to the play-mode client.
pub fn control_character(args: ControlCharacter) -> (plan: ToolPlan)
    ensures
        plan == (ToolPlan::Run {
            args: ToolArgumentValues::ControlCharacter(args),
            target: TargetRole::Client,
        }),
{
    ToolPlan::Run { args: ToolArgumentValues::ControlCharacter(args), target: TargetRole::Client }
}

/// Goes to the DataModel of the current session; in run mode that is the edit DataModel.
pub fn get_ui_tree(args: GetUiTree) -> (plan: ToolPlan)
    ensures
        plan == (ToolPlan::PlayAware {
            args: ToolArgumentValues::GetUiTree(args),
            run_server_role: TargetRole::Edit,
        }),
{
    ToolPlan::PlayAware {
        args: ToolArgumentValues::GetUiTree(args),
        run_server_role: TargetRole::Edit,
    }
}

/// Goes to the DataModel of the current session; in run mode that is the edit DataModel.
pub fn find_ui(args: FindUi) -> (plan: ToolPlan)
    ensures
        plan == (ToolPlan::PlayAware {
            args: ToolArgumentValues::FindUi(args),
            run_server_role: TargetRole::Edit,
        }),
{
    ToolPlan::PlayAware {
        args: ToolArgumentValues::FindUi(args),
        run_server_role: TargetRole::Edit,
    }
}

/// Goes to the DataModel of the current session; in run mode that is the server DataModel.
pub fn list_prompts(args: ListPrompts) -> (plan: ToolPlan)
    ensures
        plan == (ToolPlan::PlayAware {
            args: ToolArgumentValues::ListPrompts(args),
            run_server_role: TargetRole::Server,
        }),
{
    ToolPlan::PlayAware {
        args: ToolArgumentValues::ListPrompts(args),
        run_server_role: TargetRole::Server,
    }
}

/// Goes to the DataModel that owns the rendered viewport.
pub fn set_camera(args: SetCamera) -> (plan: ToolPlan)
    ensures
        plan == (ToolPlan::Rendering { args: ToolArgumentValues::SetCamera(args) }),
{
    ToolPlan::Rendering { args: ToolArgumentValues::SetCamera(args) }
}

/// Goes where the context says; without one, to the DataModel of the current session, which in run
/// mode is the server. A context that does not exist is refused once the window is resolved.
pub fn wait_for(args: WaitFor) -> (plan: ToolPlan)
    ensures
        !plan.addresses(TargetRole::Legacy),
        args.context is None ==> plan == (ToolPlan::PlayAware {
            args: ToolArgumentValues::WaitFor(args),
            run_server_role: TargetRole::Server,
        }),
        args.context is Some ==> match parse_context_spec(string_view(args.context)) {
            Err(message) => plan matches ToolPlan::RefuseResolved { message: m } && m@ == message,
            Ok(target) => plan == (ToolPlan::Run { args: ToolArgumentValues::WaitFor(args), target }),
        },
{
    if args.context.is_none() {
        return ToolPlan::PlayAware {
            args: ToolArgumentValues::WaitFor(args),
            run_server_role: TargetRole::Server,
        };
    }
    match parse_context(as_deref(&args.context)) {
        Ok(target) => ToolPlan::Run { args: ToolArgumentValues::WaitFor(args), target },
        Err(message) => ToolPlan::RefuseResolved { message },
    }
}

} // verus!
