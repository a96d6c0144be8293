//! Screenshots: what is asked for, the capture inside the engine step by step, the fallback to the
//! Studio window, and what is handed over.

use crate::binary64::Real;
use crate::commands::{is_random_uuid, new_uuid};
use crate::encoding::{base64_decoded, base64_encode, base64_text, uuid_text, write_uuid};
use crate::os_capture::WindowCapture;
use crate::picture::{
    encodable, encode_rgba, encode_spec, encoded_view, has_output, is_encodable, output_fits,
    screenshot_encodable, screenshot_spec, screenshot_succeeds, shows, shrunk_pixels, shrunk_size,
    try_encode_screenshot, EncodedScreenshot, EncodedView, ReadReply, RgbaImage,
};
use crate::role::TargetRole;
use crate::server::{rendering_role_spec, RBXStudioServer};
use crate::text::{as_deref, copy_text, same_text, string_view, trim_spec};
use crate::tools::{
    GetStudioMode, PixelRect, TakeScreenshot, TakeScreenshotCapture, TakeScreenshotRead,
    ToolArgumentValues,
};
use vstd::prelude::*;

verus! {

/// The longest side of a screenshot where the request names none.
pub const DEFAULT_MAX_DIMENSION: u32 = 1280;

/// The longest side of a screenshot at most, whatever the request names.
pub const GREATEST_MAX_DIMENSION: u32 = 4096;

/// How a screenshot is made and handed over.
#[derive(Debug)]
pub struct ScreenshotOptions {
    pub format: String,
    pub max_dimension: u32,
    pub save_to_file: bool,
}

/// The picture format of a request.
pub open spec fn format_spec(format: Option<Seq<char>>) -> Result<Seq<char>, Seq<char>> {
    match format {
        None => Ok("png"@),
        Some(name) => if name == "png"@ {
            Ok("png"@)
        } else if name == "jpeg"@ || name == "jpg"@ {
            Ok("jpeg"@)
        } else {
            Err("Invalid format '"@ + name + "': must be png or jpeg"@)
        },
    }
}

/// The longest side of a requested screenshot: what was asked for, but at least one pixel, and at
/// most the greatest side.
pub open spec fn max_dimension_spec(asked: Option<u32>) -> u32 {
    match asked {
        None => DEFAULT_MAX_DIMENSION,
        Some(side) => if side == 0 {
            1
        } else if side > GREATEST_MAX_DIMENSION {
            GREATEST_MAX_DIMENSION
        } else {
            side
        },
    }
}

fn or_false(asked: Option<bool>) -> (yes: bool)
    ensures
        yes == (asked == Some(true)),
{
    match asked {
        Some(yes) => yes,
        None => false,
    }
}

/// Reads how a screenshot is to be made and handed over.
pub fn screenshot_options(args: &TakeScreenshot) -> (options: Result<ScreenshotOptions, String>)
    ensures
        match format_spec(string_view(args.format)) {
            Err(message) => options matches Err(m) && m@ == message,
            Ok(format) => options matches Ok(options) && {
                &&& options.format@ == format
                &&& options.max_dimension == max_dimension_spec(args.max_dimension)
                &&& options.save_to_file == (args.save_to_file == Some(true))
            },
        },
{
    let format = match as_deref(&args.format) {
        None => "png",
        Some(name) => {
            if same_text(name, "png") {
                "png"
            } else if same_text(name, "jpeg") || same_text(name, "jpg") {
                "jpeg"
            } else {
                let mut message = "Invalid format '".to_owned();
                message.append(name);
                message.append("': must be png or jpeg");
                return Err(message);
            }
        },
    };
    let max_dimension: u32 = match args.max_dimension {
        None => DEFAULT_MAX_DIMENSION,
        Some(side) => if side == 0 {
            1
        } else if side > GREATEST_MAX_DIMENSION {
            GREATEST_MAX_DIMENSION
        } else {
            side
        },
    };
    Ok(
        ScreenshotOptions {
            format: format.to_owned(),
            max_dimension,
            save_to_file: or_false(args.save_to_file),
        },
    )
}

/// No screenshot is larger than asked for: neither side of a picture that is shrunk to the longest
/// side of a request exceeds what the request names (or the default, where it names nothing).
pub proof fn screenshots_are_no_larger_than_asked(asked: Option<u32>, width: u32, height: u32)
    requires
        asked != Some(0u32),
    ensures
        ({
            let side = match asked {
                Some(side) => side,
                None => DEFAULT_MAX_DIMENSION,
            };
            let (new_width, new_height) = shrunk_size(width, height, max_dimension_spec(asked));
            new_width <= side && new_height <= side
        }),
{
    output_fits(width, height, max_dimension_spec(asked));
}

/// The size of the viewport, in the coordinates of the UI.
#[derive(Clone, Copy, Debug)]
pub struct CaptureViewport {
    pub w: Real,
    pub h: Real,
}

/// Studio's answer to a capture: where the picture can be read, and which part of it was asked for.
#[derive(Debug)]
pub struct CaptureReply {
    pub content_id: String,
    pub viewport: CaptureViewport,
    pub rect: Option<PixelRect>,
}

/// A command for one role of one window.
#[derive(Debug)]
pub struct CaptureCommand {
    pub args: ToolArgumentValues,
    pub target: TargetRole,
    pub instance: Option<String>,
}

/// What a capture shows: the whole viewport or one element of the UI.
#[derive(Debug)]
pub struct CaptureSubject {
    pub ui_path: Option<String>,
    pub isolate: Option<bool>,
    pub park_mouse: Option<bool>,
}

/// A capture whose window is settled; the Studio mode decides which DataModel renders.
#[derive(Debug)]
pub struct AwaitingMode {
    pub subject: CaptureSubject,
    pub instance: Option<String>,
}

/// A capture whose DataModel is settled as well.
#[derive(Debug)]
pub struct AwaitingCapture {
    pub subject: CaptureSubject,
    pub instance: Option<String>,
    pub mode: String,
    pub role: TargetRole,
}

/// A capture whose pixels are still to be read.
#[derive(Debug)]
pub struct AwaitingPixels {
    pub instance: Option<String>,
    pub mode: String,
    pub role: TargetRole,
    pub reply: CaptureReply,
}

/// A finished capture inside the engine.
#[derive(Debug)]
pub struct EngineCapture {
    pub read: ReadReply,
    pub mode: String,
    pub role: TargetRole,
    pub viewport: CaptureViewport,
}

/// Begins a capture inside the engine in the window that was resolved once for all its steps.
pub fn begin_capture(args: &TakeScreenshot, resolved: Result<Option<String>, String>) -> (step: Result<
    AwaitingMode,
    String,
>)
    ensures
        match resolved {
            Err(message) => step == Err::<AwaitingMode, String>(message),
            Ok(instance) => step matches Ok(step) && {
                &&& step.instance == instance
                &&& string_view(step.subject.ui_path) == string_view(args.ui_path)
                &&& step.subject.isolate == args.isolate
                &&& step.subject.park_mouse == args.park_mouse
            },
        },
{
    match resolved {
        Err(message) => Err(message),
        Ok(instance) => Ok(
            AwaitingMode {
                subject: CaptureSubject {
                    ui_path: copy_text(&args.ui_path),
                    isolate: args.isolate,
                    park_mouse: args.park_mouse,
                },
                instance,
            },
        ),
    }
}

impl AwaitingMode {
    /// The question for the Studio mode, which the edit DataModel answers.
    pub fn command(&self) -> (command: CaptureCommand)
        ensures
            command == (CaptureCommand {
                args: ToolArgumentValues::GetStudioMode(GetStudioMode {  }),
                target: TargetRole::Edit,
                instance: self.instance,
            }),
    {
        CaptureCommand {
            args: ToolArgumentValues::GetStudioMode(GetStudioMode {  }),
            target: TargetRole::Edit,
            instance: copy_text(&self.instance),
        }
    }

    /// Takes the Studio mode: the capture runs on the DataModel that renders.
    pub fn mode_answered<C>(
        self,
        server: &RBXStudioServer<C>,
        mode: Result<String, String>,
        now: u64,
    ) -> (step: Result<AwaitingCapture, String>)
        requires
            server.state.wf(),
        ensures
            match mode {
                Err(message) => step == Err::<AwaitingCapture, String>(message),
                Ok(mode) => step matches Ok(step) && {
                    &&& step.subject == self.subject
                    &&& step.instance == self.instance
                    &&& step.mode@ == trim_spec(mode@)
                    &&& step.role == rendering_role_spec(
                        server.state@.instances,
                        mode@,
                        string_view(self.instance),
                        now,
                    )
                },
            },
    {
        match mode {
            Err(message) => Err(message),
            Ok(mode) => {
                let (mode, role) = server.rendering_role(
                    mode.as_str(),
                    as_deref(&self.instance),
                    now,
                );
                Ok(AwaitingCapture { subject: self.subject, instance: self.instance, mode, role })
            },
        }
    }
}

impl AwaitingCapture {
    /// The capture itself, in the same window.
    pub fn command(&self) -> (command: CaptureCommand)
        ensures
            command.target == self.role,
            command.instance == self.instance,
            command.args matches ToolArgumentValues::TakeScreenshotCapture(args) && {
                &&& string_view(args.ui_path) == string_view(self.subject.ui_path)
                &&& args.isolate == self.subject.isolate
                &&& args.park_mouse == self.subject.park_mouse
            },
    {
        CaptureCommand {
            args: ToolArgumentValues::TakeScreenshotCapture(
                TakeScreenshotCapture {
                    ui_path: copy_text(&self.subject.ui_path),
                    isolate: self.subject.isolate,
                    park_mouse: self.subject.park_mouse,
                },
            ),
            target: self.role,
            instance: copy_text(&self.instance),
        }
    }

    /// Takes the result of the capture; an error says where it happened.
    pub fn capture_answered(&self, result: Result<String, String>) -> (reply: Result<String, String>)
        ensures
            match result {
                Ok(text) => reply == Ok::<String, String>(text),
                Err(error) => reply matches Err(message) && message@ == "Screenshot capture failed on the "@
                    + self.role.title_text() + " DataModel: "@ + error@,
            },
    {
        match result {
            Ok(text) => Ok(text),
            Err(error) => {
                let mut message = "Screenshot capture failed on the ".to_owned();
                message.append(self.role.title());
                message.append(" DataModel: ");
                message.append(error.as_str());
                Err(message)
            },
        }
    }

    /// Takes Studio's answer as it was understood, or the reason why the text `json` was not.
    pub fn captured(self, reply: Result<CaptureReply, String>, json: &str) -> (step: Result<
        AwaitingPixels,
        String,
    >)
        ensures
            match reply {
                Ok(reply) => step == Ok::<AwaitingPixels, String>(
                    AwaitingPixels { instance: self.instance, mode: self.mode, role: self.role, reply },
                ),
                Err(reason) => step matches Err(message) && message@
                    == "Unexpected capture reply from Studio ("@ + reason@ + "): "@ + json@,
            },
    {
        match reply {
            Ok(reply) => Ok(
                AwaitingPixels { instance: self.instance, mode: self.mode, role: self.role, reply },
            ),
            Err(reason) => {
                let mut message = "Unexpected capture reply from Studio (".to_owned();
                message.append(reason.as_str());
                message.append("): ");
                message.append(json);
                Err(message)
            },
        }
    }
}

impl AwaitingPixels {
    /// The question for the pixels, in the same window. The captured picture is readable from the
    /// edit DataModel, which talks to the server directly, so that megabytes of pixels never cross
    /// the client's relay.
    pub fn command(&self) -> (command: CaptureCommand)
        ensures
            command.target == TargetRole::Edit,
            command.instance == self.instance,
            command.args matches ToolArgumentValues::TakeScreenshotRead(args) && {
                &&& args.content_id@ == self.reply.content_id@
                &&& args.viewport_w == self.reply.viewport.w
                &&& args.viewport_h == self.reply.viewport.h
                &&& args.rect == self.reply.rect
            },
    {
        CaptureCommand {
            args: ToolArgumentValues::TakeScreenshotRead(
                TakeScreenshotRead {
                    content_id: self.reply.content_id.clone(),
                    viewport_w: self.reply.viewport.w,
                    viewport_h: self.reply.viewport.h,
                    rect: self.reply.rect,
                },
            ),
            target: TargetRole::Edit,
            instance: copy_text(&self.instance),
        }
    }

    /// Takes the result of reading the pixels.
    pub fn pixels_answered(&self, result: Result<String, String>) -> (reply: Result<String, String>)
        ensures
            match result {
                Ok(text) => reply == Ok::<String, String>(text),
                Err(error) => reply matches Err(message) && message@ == "Reading screenshot pixels failed: "@
                    + error@,
            },
    {
        match result {
            Ok(text) => Ok(text),
            Err(error) => {
                let mut message = "Reading screenshot pixels failed: ".to_owned();
                message.append(error.as_str());
                Err(message)
            },
        }
    }

    /// Takes the pixels as they were understood, or the reason why they were not.
    pub fn pixels_read(self, read: Result<ReadReply, String>) -> (capture: Result<EngineCapture, String>)
        ensures
            match read {
                Ok(read) => capture == Ok::<EngineCapture, String>(
                    EngineCapture {
                        read,
                        mode: self.mode,
                        role: self.role,
                        viewport: self.reply.viewport,
                    },
                ),
                Err(reason) => capture matches Err(message) && message@
                    == "Unexpected pixel reply from Studio: "@ + reason@,
            },
    {
        match read {
            Ok(read) => Ok(
                EngineCapture { read, mode: self.mode, role: self.role, viewport: self.reply.viewport },
            ),
            Err(reason) => {
                let mut message = "Unexpected pixel reply from Studio: ".to_owned();
                message.append(reason.as_str());
                Err(message)
            },
        }
    }
}

/// Where a screenshot comes from, as its metadata tell.
#[derive(Debug)]
pub enum ScreenshotOrigin {
    /// A capture inside the engine. The viewport's size is in the coordinates of UI rectangles and
    /// clicks: a pixel seen in the picture is clicked after scaling by viewport size over picture
    /// size.
    Engine {
        viewport: CaptureViewport,
        studio_mode: String,
        captured_on: String,
        source: String,
        ui_path: Option<String>,
        isolate: bool,
    },
    /// A capture of the whole Studio window.
    Window { source: String, window_title: String, note: String, engine_error: String },
}

/// Whether the metadata tell of this capture inside the engine.
pub open spec fn tells_engine(
    origin: ScreenshotOrigin,
    viewport: CaptureViewport,
    mode: String,
    role: TargetRole,
    args: TakeScreenshot,
) -> bool {
    origin matches ScreenshotOrigin::Engine {
        viewport: v,
        studio_mode,
        captured_on,
        source,
        ui_path,
        isolate,
    } && {
        &&& v == viewport
        &&& studio_mode == mode
        &&& captured_on@ == role.title_text()
        &&& source@ == "CaptureService"@
        &&& string_view(ui_path) == string_view(args.ui_path)
        &&& isolate == (args.isolate == Some(true))
    }
}

/// What the metadata tell of a capture inside the engine.
pub fn engine_origin(
    viewport: CaptureViewport,
    mode: String,
    role: TargetRole,
    args: &TakeScreenshot,
) -> (origin: ScreenshotOrigin)
    ensures
        tells_engine(origin, viewport, mode, role, *args),
{
    ScreenshotOrigin::Engine {
        viewport,
        studio_mode: mode,
        captured_on: role.title().to_owned(),
        source: "CaptureService".to_owned(),
        ui_path: copy_text(&args.ui_path),
        isolate: or_false(args.isolate),
    }
}

/// Whether the metadata tell of this capture of the window, which was made because the capture inside
/// the engine failed.
pub open spec fn tells_window(origin: ScreenshotOrigin, title: String, engine_error: String) -> bool {
    origin matches ScreenshotOrigin::Window { source, window_title, note, engine_error: e } && {
        &&& source@ == "os_window"@
        &&& window_title == title
        &&& note@
            == "Fallback capture of the whole Studio window (includes Studio chrome; ui_path crop and viewport coordinates do not apply)."@
        &&& e == engine_error
    }
}

/// What the metadata tell of a capture of the window.
pub fn window_origin(title: String, engine_error: String) -> (origin: ScreenshotOrigin)
    ensures
        tells_window(origin, title, engine_error),
{
    ScreenshotOrigin::Window {
        source: "os_window".to_owned(),
        window_title: title,
        note: "Fallback capture of the whole Studio window (includes Studio chrome; ui_path crop and viewport coordinates do not apply).".to_owned(),
        engine_error,
    }
}

/// How a screenshot goes on after the attempt to capture inside the engine.
#[derive(Debug)]
pub enum AfterEngine {
    /// The captured pixels are encoded.
    Encode { capture: EngineCapture },
    /// The Studio window is captured instead.
    CaptureWindow { engine_error: String },
}

/// Falls back to the Studio window where the capture inside the engine failed, at whichever step.
pub fn after_engine(captured: Result<EngineCapture, String>) -> (next: AfterEngine)
    ensures
        match captured {
            Ok(capture) => next == (AfterEngine::Encode { capture }),
            Err(engine_error) => next == (AfterEngine::CaptureWindow { engine_error }),
        },
{
    match captured {
        Ok(capture) => AfterEngine::Encode { capture },
        Err(engine_error) => AfterEngine::CaptureWindow { engine_error },
    }
}

/// What comes of the fallback to the Studio window: its capture, or both errors.
pub fn window_fallback(engine_error: &str, captured: Result<WindowCapture, String>) -> (result: Result<
    WindowCapture,
    String,
>)
    ensures
        match captured {
            Ok(capture) => result == Ok::<WindowCapture, String>(capture),
            Err(os_error) => result matches Err(message) && message@ == "In-engine capture failed: "@
                + engine_error@ + "\nOS window capture also failed: "@ + os_error@,
        },
{
    match captured {
        Ok(capture) => Ok(capture),
        Err(os_error) => {
            let mut message = "In-engine capture failed: ".to_owned();
            message.append(engine_error);
            message.append("\nOS window capture also failed: ");
            message.append(os_error.as_str());
            Err(message)
        },
    }
}

/// The metadata of a screenshot.
#[derive(Debug)]
pub struct ScreenshotMeta {
    pub origin: ScreenshotOrigin,
    pub width: u32,
    pub height: u32,
    pub mime: String,
    /// `file` or `inline_image`.
    pub delivery: String,
    /// Where the file is, where there is one.
    pub path: Option<String>,
}

/// A screenshot as it is handed over.
#[derive(Debug)]
pub enum ScreenshotToolOutput {
    /// The picture in base64, with its metadata.
    Inline { data: String, mime: String, meta: ScreenshotMeta },
    /// The metadata of a picture that was saved.
    File { meta: ScreenshotMeta },
}

/// A screenshot that is still to be saved under this name.
#[derive(Debug)]
pub struct PendingFile {
    pub file_name: String,
    pub bytes: Vec<u8>,
    pub width: u32,
    pub height: u32,
    pub mime: String,
    pub origin: ScreenshotOrigin,
}

/// The last step of a screenshot.
#[derive(Debug)]
pub enum ScreenshotStep {
    Save { file: PendingFile },
    Done { output: ScreenshotToolOutput },
}

/// The name of a screenshot's file.
pub open spec fn file_name_spec(id: u128, format: Seq<char>) -> Seq<char> {
    "screenshot-"@ + uuid_text(id) + "."@ + (if format == "jpeg"@ {
        "jpg"@
    } else {
        "png"@
    })
}

/// The name of a screenshot's file.
pub fn screenshot_file_name(id: u128, format: &str) -> (name: String)
    ensures
        name@ == file_name_spec(id, format@),
{
    let mut name = "screenshot-".to_owned();
    name.append(write_uuid(id).as_str());
    name.append(".");
    if same_text(format, "jpeg") {
        name.append("jpg");
    } else {
        name.append("png");
    }
    name
}

impl ScreenshotStep {
    /// Where the screenshot comes from.
    pub open spec fn origin(self) -> ScreenshotOrigin {
        match self {
            ScreenshotStep::Save { file } => file.origin,
            ScreenshotStep::Done { output: ScreenshotToolOutput::Inline { meta, .. } } => meta.origin,
            ScreenshotStep::Done { output: ScreenshotToolOutput::File { meta } } => meta.origin,
        }
    }
}

/// Whether a screenshot is handed over: in base64, or as a file with a name of its own.
pub open spec fn hands_over(
    step: ScreenshotStep,
    encoded: EncodedView,
    format: Seq<char>,
    save_to_file: bool,
) -> bool {
    if save_to_file {
        step matches ScreenshotStep::Save { file } && {
            &&& exists|id: u128|
                is_random_uuid(id) && file.file_name@ == #[trigger] file_name_spec(id, format)
            &&& file.bytes@ == encoded.bytes
            &&& file.width == encoded.width
            &&& file.height == encoded.height
            &&& file.mime@ == encoded.mime
        }
    } else {
        step matches ScreenshotStep::Done { output: ScreenshotToolOutput::Inline { data, mime, meta } } && {
            &&& data@ == base64_text(encoded.bytes)
            &&& mime@ == encoded.mime
            &&& meta.width == encoded.width
            &&& meta.height == encoded.height
            &&& meta.mime@ == encoded.mime
            &&& meta.delivery@ == "inline_image"@
            &&& meta.path is None
        }
    }
}

/// Hands a screenshot over: in base64, or as a file with a name of its own.
pub fn finish_screenshot_output(
    encoded: EncodedScreenshot,
    origin: ScreenshotOrigin,
    format: &str,
    save_to_file: bool,
) -> (step: ScreenshotStep)
    requires
        !save_to_file ==> base64_text(encoded.bytes@).len() <= isize::MAX,
    ensures
        hands_over(step, encoded@, format@, save_to_file),
        step.origin() == origin,
{
    if save_to_file {
        let id: u128 = new_uuid();
        let file_name = screenshot_file_name(id, format);
        return ScreenshotStep::Save {
            file: PendingFile {
                file_name,
                bytes: encoded.bytes,
                width: encoded.width,
                height: encoded.height,
                mime: encoded.mime,
                origin,
            },
        };
    }
    let data = base64_encode(&encoded.bytes);
    let meta = ScreenshotMeta {
        origin,
        width: encoded.width,
        height: encoded.height,
        mime: encoded.mime.clone(),
        delivery: "inline_image".to_owned(),
        path: None,
    };
    ScreenshotStep::Done {
        output: ScreenshotToolOutput::Inline { data, mime: encoded.mime, meta },
    }
}

/// Whether a screenshot can be handed over: a picture in base64 has to fit into memory.
pub open spec fn deliverable(encoded: EncodedView, save_to_file: bool) -> bool {
    save_to_file || base64_text(encoded.bytes).len() <= isize::MAX
}

/// What becomes of a picture that was encoded, or could not be: it is handed over, or the reason is
/// told. There is no answer where the work does not fit into memory.
pub open spec fn delivers(
    result: Option<Result<ScreenshotStep, String>>,
    encoded: Option<Result<EncodedView, Seq<char>>>,
    format: Seq<char>,
    save_to_file: bool,
) -> bool {
    match encoded {
        None => result is None,
        Some(Err(reason)) => result matches Some(Err(message)) && message@ == reason,
        Some(Ok(encoded)) => if deliverable(encoded, save_to_file) {
            result matches Some(Ok(step)) && hands_over(step, encoded, format, save_to_file)
        } else {
            result is None
        },
    }
}

fn deliver(
    encoded: Result<EncodedScreenshot, String>,
    origin: ScreenshotOrigin,
    options: &ScreenshotOptions,
) -> (result: Option<Result<ScreenshotStep, String>>)
    ensures
        delivers(result, Some(encoded_view(encoded)), options.format@, options.save_to_file),
        result matches Some(Ok(step)) ==> step.origin() == origin,
{
    match encoded {
        Err(message) => Some(Err(message)),
        Ok(encoded) => {
            let groups: u128 = (encoded.bytes.len() as u128 + 2) / 3;
            if !options.save_to_file && groups * 4 > isize::MAX as u128 {
                return None;
            }
            Some(
                Ok(
                    finish_screenshot_output(
                        encoded,
                        origin,
                        options.format.as_str(),
                        options.save_to_file,
                    ),
                ),
            )
        },
    }
}

/// The pixels that Studio sent as an encoded picture, where they can be encoded.
pub open spec fn engine_picture(read: ReadReply, max: u32, format: Seq<char>) -> Option<
    Result<EncodedView, Seq<char>>,
> {
    let raw = base64_decoded(read.pixels@);
    if raw matches Ok(pixels) && !screenshot_encodable(
        pixels.len(),
        read.width,
        read.height,
        max,
        format,
    ) {
        None
    } else {
        Some(screenshot_spec(raw, read.width, read.height, max, format))
    }
}

/// Makes the requested screenshot of a capture inside the engine: the pixels are encoded in the
/// format and within the size of the request, and handed over as the request says.
pub fn engine_screenshot(args: &TakeScreenshot, capture: EngineCapture) -> (result: Option<
    Result<ScreenshotStep, String>,
>)
    ensures
        match format_spec(string_view(args.format)) {
            Err(reason) => result matches Some(Err(message)) && message@ == reason,
            Ok(format) => {
                let max = max_dimension_spec(args.max_dimension);
                let picture = engine_picture(capture.read, max, format);
                &&& delivers(result, picture, format, args.save_to_file == Some(true))
                &&& result matches Some(result) ==> (result is Ok <==> screenshot_succeeds(
                    base64_decoded(capture.read.pixels@),
                    capture.read.width,
                    capture.read.height,
                    max,
                    format,
                ))
                &&& result matches Some(Ok(step)) ==> {
                    &&& tells_engine(
                        step.origin(),
                        capture.viewport,
                        capture.mode,
                        capture.role,
                        *args,
                    )
                    &&& picture matches Some(Ok(encoded)) && base64_decoded(
                        capture.read.pixels@,
                    ) matches Ok(pixels) && shows(
                        encoded,
                        shrunk_pixels(pixels, capture.read.width, capture.read.height, max),
                        format,
                    )
                }
            },
        },
{
    let options = match screenshot_options(args) {
        Ok(options) => options,
        Err(message) => return Some(Err(message)),
    };
    let EngineCapture { read, mode, role, viewport } = capture;
    match try_encode_screenshot(&read, options.max_dimension, options.format.as_str()) {
        Some(encoded) => deliver(encoded, engine_origin(viewport, mode, role, args), &options),
        None => None,
    }
}

/// The picture of a Studio window as an encoded picture, where it can be encoded.
pub open spec fn window_picture(image: RgbaImage, max: u32, format: Seq<char>) -> Option<
    Result<EncodedView, Seq<char>>,
> {
    if encodable(image.pixels@.len(), image.width, image.height, max, format) {
        Some(encode_spec(image.pixels@, image.width, image.height, max, format))
    } else {
        None
    }
}

/// Makes the requested screenshot of a capture of the Studio window: the picture is encoded in the
/// format and within the size of the request, and handed over as the request says.
pub fn window_screenshot(
    args: &TakeScreenshot,
    capture: WindowCapture,
    engine_error: String,
) -> (result: Option<Result<ScreenshotStep, String>>)
    ensures
        match format_spec(string_view(args.format)) {
            Err(reason) => result matches Some(Err(message)) && message@ == reason,
            Ok(format) => {
                let max = max_dimension_spec(args.max_dimension);
                let picture = window_picture(capture.image, max, format);
                &&& delivers(result, picture, format, args.save_to_file == Some(true))
                &&& result matches Some(result) ==> (result is Ok <==> has_output(
                    capture.image.width,
                    capture.image.height,
                    max,
                    format,
                ))
                &&& result matches Some(Ok(step)) ==> {
                    &&& tells_window(step.origin(), capture.title, engine_error)
                    &&& picture matches Some(Ok(encoded)) && shows(
                        encoded,
                        shrunk_pixels(
                            capture.image.pixels@,
                            capture.image.width,
                            capture.image.height,
                            max,
                        ),
                        format,
                    )
                }
            },
        },
{
    let options = match screenshot_options(args) {
        Ok(options) => options,
        Err(message) => return Some(Err(message)),
    };
    let WindowCapture { image, title } = capture;
    let (max, format) = (options.max_dimension, options.format.as_str());
    if !is_encodable(image.pixels.len(), image.width, image.height, max, format) {
        return None;
    }
    deliver(encode_rgba(image, max, format), window_origin(title, engine_error), &options)
}

impl PendingFile {
    /// Takes the path that the file was saved under, or the reason why it was not.
    pub fn saved(self, path: Result<String, String>) -> (output: Result<ScreenshotToolOutput, String>)
        ensures
            match path {
                Err(message) => output == Err::<ScreenshotToolOutput, String>(message),
                Ok(path) => output matches Ok(ScreenshotToolOutput::File { meta }) && {
                    &&& meta.origin == self.origin
                    &&& meta.width == self.width
                    &&& meta.height == self.height
                    &&& meta.mime == self.mime
                    &&& meta.delivery@ == "file"@
                    &&& meta.path == Some(path)
                },
            },
    {
        match path {
            Err(message) => Err(message),
            Ok(path) => Ok(
                ScreenshotToolOutput::File {
                    meta: ScreenshotMeta {
                        origin: self.origin,
                        width: self.width,
                        height: self.height,
                        mime: self.mime,
                        delivery: "file".to_owned(),
                        path: Some(path),
                    },
                },
            ),
        }
    }
}

} // verus!
