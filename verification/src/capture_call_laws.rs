//! What holds of the operations that make screenshots and find windows, whatever they are called with:
//! how the result of a call relates to its arguments.

use crate::binary64::{
    binary64_integer, binary64_ratio, grain, scale_up, scaled_side, Real, HIDDEN_BIT, MANTISSA_LIMIT,
};
use crate::encoding::{base64_decoded, base64_reads_back};
use crate::instances::role_is_fresh;
use crate::os_capture::{
    choose_window, score, shows_studio, window_capture, CandidateWindow, WindowCapture,
};
use crate::os_window::{
    any_match, describe_windows, first_match, keep_studio_windows, next_restore_action, open_studio_window,
    pick, restore_studio_window, studio_windows, title_matches, window_titles, ListedWindow, RestoreAction,
    StudioWindowInfo,
};
use crate::picture::{
    encode_screenshot, encode_spec, encoding_succeeds, is_encodable, output_fits, output_size,
    shrunk_size, try_encode_screenshot, EncodedScreenshot, EncodedView, ReadReply, RgbaImage,
};
use crate::role::TargetRole;
use crate::screenshot::{
    after_engine, begin_capture, engine_screenshot, file_name_spec, screenshot_file_name, screenshot_options,
    window_fallback, window_screenshot, AfterEngine, AwaitingCapture, AwaitingMode, AwaitingPixels,
    CaptureCommand, CaptureReply, EngineCapture, PendingFile, ScreenshotOptions, ScreenshotOrigin,
    ScreenshotStep, ScreenshotToolOutput,
};
use crate::server::RBXStudioServer;
use crate::text::{contains_text, join_spec, string_view, trim_spec};
use crate::text_laws::found_text_stands_between;
use crate::tool_laws::{
    formats_are_png_and_jpeg, pictures_become_files, the_focused_or_largest_window_is_captured,
    whole_pictures_can_be_encoded,
};
use crate::tools::{TakeScreenshot, ToolArgumentValues};
use crate::window_laws::joined_texts_are_found;
use vstd::arithmetic::div_mod::{
    lemma_fundamental_div_mod, lemma_fundamental_div_mod_converse, lemma_mod_multiples_basic,
};
use vstd::arithmetic::power2::{
    lemma2_to64, lemma2_to64_rest, lemma_pow2_adds, lemma_pow2_pos, lemma_pow2_strictly_increases,
    lemma_pow2_unfold, pow2,
};
use vstd::prelude::*;

verus! {

/// A screenshot is a PNG file, or a JPEG file where one is asked for. Its longest side is the side that
/// is asked for, from one pixel to 4096, or 1280; and it is saved only where that is asked for.
pub proof fn screenshots_are_as_asked_for(
    args: &TakeScreenshot,
    options: Result<ScreenshotOptions, String>,
)
    requires
        call_ensures(screenshot_options, (args,), options),
    ensures
        args.format is None ==> (options matches Ok(o) && o.format@ == "png"@),
        args.format matches Some(name) ==> {
            &&& name@ == "png"@ ==> (options matches Ok(o) && o.format@ == "png"@)
            &&& name@ == "jpeg"@ || name@ == "jpg"@ ==> (options matches Ok(o) && o.format@ == "jpeg"@)
            &&& name@ != "png"@ && name@ != "jpeg"@ && name@ != "jpg"@ ==> (options matches Err(message)
                && contains_text(message@, name@))
        },
        options matches Ok(o) ==> {
            &&& args.max_dimension is None ==> o.max_dimension == 1280
            &&& args.max_dimension matches Some(side) ==> {
                &&& 1 <= side <= 4096 ==> o.max_dimension == side
                &&& side > 4096 ==> o.max_dimension == 4096
                &&& side == 0 ==> o.max_dimension == 1
            }
            &&& o.save_to_file == (args.save_to_file matches Some(yes) && yes)
        },
{
    lemma_formats();
    if let Some(name) = args.format {
        formats_are_png_and_jpeg(name@);
    }
}

proof fn lemma_formats()
    ensures
        "png"@ == seq!['p', 'n', 'g'],
        "jpeg"@ == seq!['j', 'p', 'e', 'g'],
        "jpg"@ == seq!['j', 'p', 'g'],
        "png"@ != "jpeg"@,
        "png"@ != "jpg"@,
        "jpeg"@ != "jpg"@,
{
    reveal_strlit("png");
    reveal_strlit("jpeg");
    reveal_strlit("jpg");
    assert("png"@ =~= seq!['p', 'n', 'g']);
    assert("jpeg"@ =~= seq!['j', 'p', 'e', 'g']);
    assert("jpg"@ =~= seq!['j', 'p', 'g']);
    assert("png"@[0] != "jpg"@[0]);
    assert("png"@.len() == 3 && "jpeg"@.len() == 4 && "jpg"@.len() == 3);
}

/// All steps of a capture go to the window that was resolved for it. The mode is asked of the edit
/// DataModel; the capture is made of what was asked for on the DataModel that renders; and its pixels
/// are read on the edit DataModel, as the capture's own answer says.
pub proof fn captures_stay_in_one_window<C>(
    args: &TakeScreenshot,
    window: Option<String>,
    first: AwaitingMode,
    question: CaptureCommand,
    server: &RBXStudioServer<C>,
    mode: String,
    now: u64,
    second: AwaitingCapture,
    capture: CaptureCommand,
    reply: CaptureReply,
    json: &str,
    third: AwaitingPixels,
    read: CaptureCommand,
)
    requires
        call_ensures(begin_capture, (args, Ok(window)), Ok(first)),
        call_ensures(AwaitingMode::command, (&first,), question),
        call_ensures(AwaitingMode::mode_answered::<C>, (first, server, Ok(mode), now), Ok(second)),
        call_ensures(AwaitingCapture::command, (&second,), capture),
        call_ensures(AwaitingCapture::captured, (second, Ok(reply), json), Ok(third)),
        call_ensures(AwaitingPixels::command, (&third,), read),
    ensures
        question.instance == window,
        capture.instance == window,
        read.instance == window,
        question.target == TargetRole::Edit && question.args is GetStudioMode,
        read.target == TargetRole::Edit,
        ({
            let word = trim_spec(mode@);
            let id = match window {
                Some(id) => id@,
                None => "default"@,
            };
            let polls = |role: TargetRole| role_is_fresh(server.state@.instances, id, role, now);
            &&& word == "start_play"@ ==> capture.target == TargetRole::Client
            &&& word == "run_server"@ ==> capture.target == TargetRole::Server
            &&& word != "start_play"@ && word != "run_server"@ ==> {
                &&& polls(TargetRole::Client) ==> capture.target == TargetRole::Client
                &&& !polls(TargetRole::Client) && polls(TargetRole::Server) ==> capture.target
                    == TargetRole::Server
                &&& !polls(TargetRole::Client) && !polls(TargetRole::Server) ==> capture.target
                    == TargetRole::Edit
            }
            &&& third.mode@ == word
        }),
        third.role == capture.target,
        capture.args matches ToolArgumentValues::TakeScreenshotCapture(asked) && asked.isolate == args.isolate
            && asked.park_mouse == args.park_mouse && string_view(asked.ui_path) == string_view(
            args.ui_path,
        ),
        read.args matches ToolArgumentValues::TakeScreenshotRead(asked) && asked.content_id@
            == reply.content_id@ && asked.viewport_w == reply.viewport.w && asked.viewport_h
            == reply.viewport.h && asked.rect == reply.rect,
{
    reveal_strlit("start_play");
    reveal_strlit("run_server");
    assert("start_play"@[0] != "run_server"@[0]);
}

/// The first step that fails ends a capture, and its error is told.
pub proof fn captures_end_with_the_first_error<C>(
    args: &TakeScreenshot,
    error: String,
    begun: Result<AwaitingMode, String>,
    first: AwaitingMode,
    server: &RBXStudioServer<C>,
    now: u64,
    settled: Result<AwaitingCapture, String>,
    second: &AwaitingCapture,
    answered: Result<String, String>,
    json: &str,
    understood: Result<AwaitingPixels, String>,
    third: &AwaitingPixels,
    pixels: Result<String, String>,
    read: Result<EngineCapture, String>,
)
    requires
        call_ensures(begin_capture, (args, Err(error)), begun),
        call_ensures(AwaitingMode::mode_answered::<C>, (first, server, Err(error), now), settled),
        call_ensures(AwaitingCapture::capture_answered, (second, Err(error)), answered),
        call_ensures(AwaitingCapture::captured, (*second, Err(error), json), understood),
        call_ensures(AwaitingPixels::pixels_answered, (third, Err(error)), pixels),
        call_ensures(AwaitingPixels::pixels_read, (*third, Err(error)), read),
    ensures
        begun matches Err(message) && message == error,
        settled matches Err(message) && message == error,
        answered matches Err(message) && contains_text(message@, error@) && contains_text(
            message@,
            second.role.title_text(),
        ),
        understood matches Err(message) && contains_text(message@, error@) && contains_text(message@, json@),
        pixels matches Err(message) && contains_text(message@, error@),
        read matches Err(message) && contains_text(message@, error@),
{
    let nothing = Seq::<char>::empty();
    let role = second.role.title_text();
    let message = answered->Err_0@;
    let front = "Screenshot capture failed on the "@;
    let middle = " DataModel: "@;
    assert(message =~= (front + role + middle) + error@ + nothing);
    assert(message =~= front + role + (middle + error@));
    found_text_stands_between(message, error@);
    found_text_stands_between(message, role);
    let message = understood->Err_0@;
    let front = "Unexpected capture reply from Studio ("@;
    assert(message =~= front + error@ + ("): "@ + json@));
    assert(message =~= (front + error@ + "): "@) + json@ + nothing);
    found_text_stands_between(message, error@);
    found_text_stands_between(message, json@);
    let message = pixels->Err_0@;
    assert(message =~= "Reading screenshot pixels failed: "@ + error@ + nothing);
    found_text_stands_between(message, error@);
    let message = read->Err_0@;
    assert(message =~= "Unexpected pixel reply from Studio: "@ + error@ + nothing);
    found_text_stands_between(message, error@);
}

/// What Studio answers is passed on as it is.
pub proof fn captured_answers_are_passed_on(
    text: String,
    second: &AwaitingCapture,
    answered: Result<String, String>,
    third: &AwaitingPixels,
    pixels: Result<String, String>,
    read: ReadReply,
    capture: Result<EngineCapture, String>,
)
    requires
        call_ensures(AwaitingCapture::capture_answered, (second, Ok(text)), answered),
        call_ensures(AwaitingPixels::pixels_answered, (third, Ok(text)), pixels),
        call_ensures(AwaitingPixels::pixels_read, (*third, Ok(read)), capture),
    ensures
        answered matches Ok(t) && t == text,
        pixels matches Ok(t) && t == text,
        capture matches Ok(c) && c.read == read && c.mode == third.mode && c.role == third.role
            && c.viewport == third.reply.viewport,
{
}

/// A capture inside the engine is encoded where it succeeded, and the Studio window is captured instead
/// where it failed; where that fails too, both errors are told.
pub proof fn failed_captures_fall_back_to_the_window(
    captured: Result<EngineCapture, String>,
    next: AfterEngine,
    engine_error: &str,
    window: Result<WindowCapture, String>,
    result: Result<WindowCapture, String>,
)
    requires
        call_ensures(after_engine, (captured,), next),
        call_ensures(window_fallback, (engine_error, window), result),
    ensures
        captured matches Ok(capture) ==> (next matches AfterEngine::Encode { capture: c } && c == capture),
        captured matches Err(error) ==> (next matches AfterEngine::CaptureWindow { engine_error: e } && e
            == error),
        window matches Ok(capture) ==> (result matches Ok(c) && c == capture),
        window matches Err(error) ==> (result matches Err(message) && contains_text(
            message@,
            engine_error@,
        ) && contains_text(message@, error@)),
{
    if let Err(error) = window {
        let nothing = Seq::<char>::empty();
        let front = "In-engine capture failed: "@;
        let middle = "\nOS window capture also failed: "@;
        let message = result->Err_0@;
        assert(message =~= front + engine_error@ + (middle + error@));
        assert(message =~= (front + engine_error@ + middle) + error@ + nothing);
        found_text_stands_between(message, engine_error@);
        found_text_stands_between(message, error@);
    }
}

/// A screenshot of a capture inside the engine holds the pixels of the capture, in the format and
/// within the size that are asked for: in a file that is to be saved where that is asked for, and
/// otherwise in base64 that reads back as the encoded picture. Its metadata tell the capture's viewport,
/// mode and DataModel.
pub proof fn engine_screenshots_show_the_capture(
    args: &TakeScreenshot,
    capture: EngineCapture,
    options: ScreenshotOptions,
    pixels: Seq<u8>,
    step: ScreenshotStep,
)
    requires
        call_ensures(engine_screenshot, (args, capture), Some(Ok(step))),
        call_ensures(screenshot_options, (args,), Ok(options)),
        base64_decoded(capture.read.pixels@) == Ok::<Seq<u8>, Seq<char>>(pixels),
    ensures
        ({
            let encoded = encode_spec(
                pixels,
                capture.read.width,
                capture.read.height,
                options.max_dimension,
                options.format@,
            );
            &&& encoded is Ok
            &&& options.save_to_file ==> (step matches ScreenshotStep::Save { file } && file.bytes@
                == encoded->Ok_0.bytes && file.mime@ == encoded->Ok_0.mime && file.width
                == encoded->Ok_0.width && file.height == encoded->Ok_0.height && exists|id: u128|
                file.file_name@ == #[trigger] file_name_spec(id, options.format@))
            &&& !options.save_to_file ==> (step matches ScreenshotStep::Done {
                output: ScreenshotToolOutput::Inline { data, mime, meta },
            } && base64_decoded(data@) == Ok::<Seq<u8>, Seq<char>>(encoded->Ok_0.bytes) && mime@
                == encoded->Ok_0.mime && meta.width == encoded->Ok_0.width && meta.height
                == encoded->Ok_0.height && meta.delivery@ == "inline_image"@ && meta.path is None)
            &&& step.origin() matches ScreenshotOrigin::Engine {
                viewport,
                studio_mode,
                captured_on,
                ui_path,
                isolate,
                ..
            } && viewport == capture.viewport && studio_mode == capture.mode && captured_on@
                == capture.role.title_text() && string_view(ui_path) == string_view(args.ui_path) && isolate
                == (args.isolate matches Some(yes) && yes)
            &&& pixels.len() >= 4 * (capture.read.width * capture.read.height)
        }),
{
    let encoded = encode_spec(
        pixels,
        capture.read.width,
        capture.read.height,
        options.max_dimension,
        options.format@,
    );
    base64_reads_back(encoded->Ok_0.bytes);
}

/// A screenshot of the Studio window holds the window's picture in the same way, and tells the window
/// and why the capture inside the engine failed.
pub proof fn window_screenshots_show_the_window(
    args: &TakeScreenshot,
    capture: WindowCapture,
    engine_error: String,
    options: ScreenshotOptions,
    step: ScreenshotStep,
)
    requires
        call_ensures(window_screenshot, (args, capture, engine_error), Some(Ok(step))),
        call_ensures(screenshot_options, (args,), Ok(options)),
    ensures
        ({
            let image = capture.image;
            let encoded = encode_spec(
                image.pixels@,
                image.width,
                image.height,
                options.max_dimension,
                options.format@,
            );
            &&& encoded is Ok
            &&& options.save_to_file ==> (step matches ScreenshotStep::Save { file } && file.bytes@
                == encoded->Ok_0.bytes && file.mime@ == encoded->Ok_0.mime && file.width
                == encoded->Ok_0.width && file.height == encoded->Ok_0.height && exists|id: u128|
                file.file_name@ == #[trigger] file_name_spec(id, options.format@))
            &&& !options.save_to_file ==> (step matches ScreenshotStep::Done {
                output: ScreenshotToolOutput::Inline { data, mime, meta },
            } && base64_decoded(data@) == Ok::<Seq<u8>, Seq<char>>(encoded->Ok_0.bytes) && mime@
                == encoded->Ok_0.mime && meta.width == encoded->Ok_0.width && meta.height
                == encoded->Ok_0.height && meta.delivery@ == "inline_image"@ && meta.path is None)
            &&& step.origin() matches ScreenshotOrigin::Window { window_title, engine_error: e, .. }
                && window_title == capture.title && e == engine_error
        }),
{
    let image = capture.image;
    let encoded = encode_spec(
        image.pixels@,
        image.width,
        image.height,
        options.max_dimension,
        options.format@,
    );
    base64_reads_back(encoded->Ok_0.bytes);
}

/// A request for a format that does not exist is refused, whatever was captured.
pub proof fn unknown_formats_are_refused(
    args: &TakeScreenshot,
    engine: EngineCapture,
    window: WindowCapture,
    engine_error: String,
    reason: String,
    first: Option<Result<ScreenshotStep, String>>,
    second: Option<Result<ScreenshotStep, String>>,
)
    requires
        call_ensures(screenshot_options, (args,), Err(reason)),
        call_ensures(engine_screenshot, (args, engine), first),
        call_ensures(window_screenshot, (args, window, engine_error), second),
    ensures
        first matches Some(Err(message)) && message@ == reason@,
        second matches Some(Err(message)) && message@ == reason@,
{
}

/// A saved file is told with its path and with the size, the media type and the origin of the
/// screenshot; one that could not be saved is told of.
pub proof fn saved_files_are_told(
    file: PendingFile,
    path: Result<String, String>,
    output: Result<ScreenshotToolOutput, String>,
    id: u128,
    format: &str,
    name: String,
)
    requires
        call_ensures(PendingFile::saved, (file, path), output),
        call_ensures(screenshot_file_name, (id, format), name),
    ensures
        path matches Err(error) ==> (output matches Err(message) && message == error),
        path matches Ok(at) ==> (output matches Ok(ScreenshotToolOutput::File { meta }) && meta.path == Some(
            at,
        ) && meta.width == file.width && meta.height == file.height && meta.mime == file.mime && meta.origin
            == file.origin && meta.delivery@ == "file"@),
        format@ == "jpeg"@ ==> name@ == "screenshot-"@ + crate::encoding::uuid_text(id) + "."@ + "jpg"@,
        format@ != "jpeg"@ ==> name@ == "screenshot-"@ + crate::encoding::uuid_text(id) + "."@ + "png"@,
{
}

/// A picture that fits keeps its size. One that does not is shrunk until its longest side measures what
/// is asked for, with its proportions kept as closely as whole pixels allow, and no side vanishes.
pub proof fn pictures_keep_their_proportions(width: u32, height: u32, max: u32, size: (u32, u32))
    requires
        call_ensures(output_size, (width, height, max), size),
        0 < max <= 65535,
    ensures
        size.0 <= max && size.1 <= max,
        width <= max && height <= max ==> size == (width, height),
        width > max && width >= height ==> {
            &&& size.0 == max
            &&& size.1 >= 1
            &&& 2 * (height * max) <= 2 * (size.1 * width) + width
            &&& size.1 == 1 || 2 * (size.1 * width) <= 2 * (height * max) + width
        },
        height > max && height >= width ==> {
            &&& size.1 == max
            &&& size.0 >= 1
            &&& 2 * (width * max) <= 2 * (size.0 * height) + height
            &&& size.0 == 1 || 2 * (size.0 * height) <= 2 * (width * max) + height
        },
{
    output_fits(width, height, max);
    if width > max && width >= height {
        crate::binary64::scaled_side_is_nearest(width as nat, width as nat, max as nat);
    }
    if height > max && height >= width {
        crate::binary64::scaled_side_is_nearest(height as nat, height as nat, max as nat);
    }
}

/// The pixels that Studio sent are encoded at the size that they are shrunk to, with the media type of
/// the format. Text that is not base64, and pixels that are too few for their size, are refused.
pub proof fn sent_pixels_are_encoded(
    read: &ReadReply,
    max: u32,
    format: &str,
    result: Result<EncodedScreenshot, String>,
)
    requires
        call_ensures(try_encode_screenshot, (read, max, format), Some(result)) || call_ensures(
            encode_screenshot,
            (read, max, format),
            result,
        ),
        0 < max <= 65535,
    ensures
        base64_decoded(read.pixels@) is Err ==> result is Err,
        base64_decoded(read.pixels@) matches Ok(pixels) ==> pixels.len() < 4 * (read.width * read.height)
            ==> result is Err,
        result matches Ok(encoded) ==> {
            &&& base64_decoded(read.pixels@) is Ok
            &&& encoded.mime@ == if format@ == "jpeg"@ {
                "image/jpeg"@
            } else {
                "image/png"@
            }
            &&& (encoded.width, encoded.height) == shrunk_size(read.width, read.height, max)
            &&& encode_spec(
                base64_decoded(read.pixels@)->Ok_0,
                read.width,
                read.height,
                max,
                format@,
            ) == Ok::<EncodedView, Seq<char>>(encoded@)
        },
{
    if let Ok(pixels) = base64_decoded(read.pixels@) {
        pictures_become_files(pixels, read.width, read.height, max, format@);
    }
}

/// A Studio window that is not minimized is captured where there is one: a focused one before the
/// others, and of those that are not focused one that none is larger than. Where there is none, and
/// where the windows could not be listed, it is an error.
pub proof fn a_visible_studio_window_is_captured(
    listed: &Result<Vec<CandidateWindow>, String>,
    windows: Seq<CandidateWindow>,
    chosen: Result<usize, String>,
    at: int,
)
    requires
        call_ensures(choose_window, (listed,), chosen),
        listed matches Ok(list) && list@ == windows,
    ensures
        chosen matches Ok(best) ==> best < windows.len() && contains_text(
            windows[best as int].title@,
            "Roblox Studio"@,
        ) && !windows[best as int].minimized,
        0 <= at < windows.len() && contains_text(windows[at].title@, "Roblox Studio"@)
            && !windows[at].minimized ==> (chosen matches Ok(best) && {
            let found = windows[best as int];
            &&& windows[at].focused ==> found.focused && best <= at
            &&& !found.focused ==> windows[at].width * windows[at].height <= found.width * found.height
            &&& !found.focused && windows[at].width * windows[at].height == found.width * found.height
                ==> best <= at
        }),
{
    if 0 <= at < windows.len() && contains_text(windows[at].title@, "Roblox Studio"@)
        && !windows[at].minimized {
        assert(shows_studio(windows[at]));
        if let Ok(best) = chosen {
            let (found, other) = (windows[best as int], windows[at]);
            the_focused_or_largest_window_is_captured(windows, best as int, at);
            assert(found.width * found.height >= 0 && other.width * other.height >= 0)
                by (nonlinear_arith)
                requires
                    found.width >= 0 && found.height >= 0,
                    other.width >= 0 && other.height >= 0,
            ;
            if !found.focused && other.width * other.height == found.width * found.height {
                assert(score(other) == score(found));
            }
        } else {
            assert(!shows_studio(listed->Ok_0@[at]));
        }
    }
}

/// A captured window keeps its title and its pixels, as long as there are enough of them; an error that
/// the operating system gave is told, and so is one in listing the windows.
pub proof fn captured_windows_keep_their_pixels(
    title: String,
    width: u32,
    height: u32,
    pixels: Vec<u8>,
    capture: Result<WindowCapture, String>,
    reason: String,
    failed: Result<WindowCapture, String>,
    unlisted: Result<usize, String>,
)
    requires
        call_ensures(window_capture, (title, Ok((width, height, pixels))), capture),
        call_ensures(window_capture, (title, Err(reason)), failed),
        call_ensures(choose_window, (&Err(reason),), unlisted),
    ensures
        capture matches Ok(c) ==> c.title == title && c.image == (RgbaImage { width, height, pixels }),
        pixels@.len() < 4 * (width * height) ==> capture is Err,
        width <= 0x3fff_ffff && 4 * (width * height) <= pixels@.len() ==> capture is Ok,
        failed matches Err(message) && contains_text(message@, reason@),
        unlisted matches Err(message) && contains_text(message@, reason@),
{
    let nothing = Seq::<char>::empty();
    let message = failed->Err_0@;
    assert(message =~= "Window capture failed: "@ + reason@ + nothing);
    found_text_stands_between(message, reason@);
    let message = unlisted->Err_0@;
    assert(message =~= "Could not enumerate windows: "@ + reason@ + nothing);
    found_text_stands_between(message, reason@);
}

/// Of the windows that the operating system lists, those that are visible and say that they are Studio
/// windows are kept, minimized or not, and no others.
pub proof fn visible_studio_windows_are_kept(
    listed: Vec<ListedWindow>,
    windows: Vec<ListedWindow>,
    window: ListedWindow,
)
    requires
        call_ensures(keep_studio_windows, (listed,), windows),
    ensures
        windows@.contains(window) <==> listed@.contains(window) && window.visible && contains_text(
            window.title@,
            "Roblox Studio"@,
        ),
{
    let pred = |w: ListedWindow| open_studio_window(w);
    if listed@.contains(window) && open_studio_window(window) {
        let i = choose|i: int| 0 <= i < listed@.len() && listed@[i] == window;
        listed@.lemma_filter_contains(pred, i);
    }
    if windows@.contains(window) {
        let k = choose|k: int| 0 <= k < windows@.len() && windows@[k] == window;
        listed@.lemma_filter_contains_rev(pred, window);
        listed@.lemma_filter_pred(pred, k);
    }
}

/// Each Studio window is reported with its title, whether it is minimized, and whether it is the one in
/// front.
pub proof fn studio_windows_are_described(
    windows: &Vec<ListedWindow>,
    foreground: i64,
    infos: Vec<StudioWindowInfo>,
    at: int,
)
    requires
        call_ensures(describe_windows, (windows, foreground), infos),
        0 <= at < windows@.len(),
    ensures
        infos@.len() == windows@.len(),
        infos@[at].title@ == windows@[at].title@,
        infos@[at].minimized == windows@[at].minimized,
        infos@[at].foreground == (windows@[at].handle == foreground),
{
}

/// A window that matches a hint is picked, the first of them; without one, the only window is; and none
/// is guessed among several, which are all told.
pub proof fn windows_are_picked_and_not_guessed(
    windows: &Vec<(i64, String)>,
    hint: &str,
    picked: Result<(i64, String), String>,
    at: int,
)
    requires
        call_ensures(pick, (windows, Some(hint)), picked),
        0 <= at < windows@.len(),
    ensures
        title_matches(windows@[at].1@, hint@) && (forall|i: int|
            0 <= i < at ==> !title_matches((#[trigger] windows@[i]).1@, hint@)) ==> (picked matches Ok(
            (handle, title),
        ) && handle == windows@[at].0 && title@ == windows@[at].1@),
        windows@.len() == 1 ==> (picked matches Ok((handle, title)) && handle == windows@[0].0 && title@
            == windows@[0].1@),
        windows@.len() >= 2 && (forall|i: int|
            0 <= i < windows@.len() ==> !title_matches((#[trigger] windows@[i]).1@, hint@)) ==> (
        picked matches Err(message) && contains_text(message@, windows@[at].1@)),
{
    let titles = window_titles(windows@);
    assert forall|i: int| 0 <= i < windows@.len() implies #[trigger] titles[i] == windows@[i].1@ by {}
    if title_matches(windows@[at].1@, hint@) {
        assert(titles[at] == windows@[at].1@);
        assert(any_match(titles, Some(hint@)));
    }
    match picked {
        Ok((handle, title)) => {
            let k = choose|k: int|
                {
                    &&& 0 <= k < windows@.len()
                    &&& handle == (#[trigger] windows@[k]).0
                    &&& title@ == windows@[k].1@
                    &&& if any_match(titles, Some(hint@)) {
                        first_match(titles, hint@, k)
                    } else {
                        windows@.len() == 1
                    }
                };
            assert(titles[k] == windows@[k].1@);
            if any_match(titles, Some(hint@)) {
                let m = choose|m: int|
                    0 <= m < titles.len() && title_matches(#[trigger] titles[m], hint@);
                assert(titles[m] == windows@[m].1@);
                if k < at {
                    assert(title_matches(windows@[k].1@, hint@));
                } else if k > at {
                    assert(!title_matches(titles[at], hint@));
                }
            }
        },
        Err(message) => {
            joined_texts_are_found(titles, " | "@, at);
            lemma_found_behind(
                "Several Roblox Studio windows are open and none matches; pick one with studio_window action=restore title=<substring>. Open windows: "@,
                join_spec(titles, " | "@),
                titles[at],
            );
        },
    }
}

proof fn lemma_found_behind(front: Seq<char>, list: Seq<char>, text: Seq<char>)
    requires
        contains_text(list, text),
    ensures
        contains_text(front + list, text),
{
    found_text_stands_between(list, text);
    let (before, behind) = choose|before: Seq<char>, behind: Seq<char>|
        list == #[trigger] (before + text + behind);
    assert(front + list =~= (front + before) + text + behind);
    found_text_stands_between(front + list, text);
}

/// Without a hint the only window is picked, and none where there are several or none.
pub proof fn the_only_window_is_picked(windows: &Vec<(i64, String)>, picked: Result<(i64, String), String>)
    requires
        call_ensures(pick, (windows, None), picked),
    ensures
        picked is Ok <==> windows@.len() == 1,
        picked matches Ok((handle, title)) ==> handle == windows@[0].0 && title@ == windows@[0].1@,
{
}

/// Where the operating system offers no window control, listing and restoring fail alike, whatever the
/// hint.
pub proof fn window_control_may_be_missing(
    hint: Option<&str>,
    windows: Result<Vec<StudioWindowInfo>, String>,
    title: Result<String, String>,
)
    requires
        call_ensures(studio_windows, (), windows),
        call_ensures(restore_studio_window, (hint,), title),
    ensures
        windows is Err,
        title is Err,
        windows->Err_0@ == title->Err_0@,
{
}

/// Restoring begins with showing a window that is minimized, and with raising any other; what was shown
/// is raised; and what was raised is raised again, once, where it is not in front.
pub proof fn restoring_goes_step_by_step(
    minimized: bool,
    in_front: bool,
    first: Option<RestoreAction>,
    after_show: Option<RestoreAction>,
    after_raise: Option<RestoreAction>,
    after_all: Option<RestoreAction>,
)
    requires
        call_ensures(next_restore_action, (None, minimized, in_front), first),
        call_ensures(
            next_restore_action,
            (Some(RestoreAction::Show), minimized, in_front),
            after_show,
        ),
        call_ensures(
            next_restore_action,
            (Some(RestoreAction::Raise), minimized, in_front),
            after_raise,
        ),
        call_ensures(
            next_restore_action,
            (Some(RestoreAction::RaiseAgain), minimized, in_front),
            after_all,
        ),
    ensures
        minimized ==> first == Some(RestoreAction::Show),
        !minimized ==> first == Some(RestoreAction::Raise),
        after_show == Some(RestoreAction::Raise),
        !in_front ==> after_raise == Some(RestoreAction::RaiseAgain),
        in_front ==> after_raise is None,
        after_all is None,
{
}

/// Every bit pattern but those of NaN stands for a number, and the number keeps it.
pub proof fn numbers_keep_their_pattern(pattern: u64, number: Option<Real>, bits: u64)
    requires
        call_ensures(Real::from_bits, (pattern,), number),
        number matches Some(number) ==> call_ensures(Real::bits, (&number,), bits),
    ensures
        number is Some ==> bits == pattern,
        pattern % 0x8000_0000_0000_0000 <= 0x7ff0_0000_0000_0000 <==> number is Some,
{
    assert(pattern % 0x8000_0000_0000_0000 <= 0x7ff0_0000_0000_0000 <==> !((pattern
        / 0x10_0000_0000_0000) % 2048 == 2047 && pattern % 0x10_0000_0000_0000 != 0)) by (bit_vector);
}

proof fn lemma_half_scaled(max: nat, k: nat)
    requires
        max > 0,
        k <= 53,
    ensures
        scale_up(max * pow2(k), 2 * max, pow2(k)) == (max * pow2(53), pow2(53)),
    decreases 53 - k,
{
    lemma2_to64();
    lemma2_to64_rest();
    lemma_pow2_pos(k);
    let (n, d) = (max * pow2(k), 2 * max);
    assert(n > 0) by (nonlinear_arith)
        requires
            n == max * pow2(k),
            max > 0,
            pow2(k) > 0,
    ;
    if k < 53 {
        lemma_pow2_strictly_increases(k, 53);
        lemma_pow2_unfold(k + 1);
        assert(n < HIDDEN_BIT * d) by (nonlinear_arith)
            requires
                n == max * pow2(k),
                d == 2 * max,
                pow2(k) < 0x20_0000_0000_0000,
                HIDDEN_BIT == 0x10_0000_0000_0000,
                max > 0,
        ;
        assert(2 * n == max * pow2(k + 1)) by (nonlinear_arith)
            requires
                n == max * pow2(k),
                pow2(k + 1) == 2 * pow2(k),
        ;
        lemma_half_scaled(max, k + 1);
    } else {
        assert(n >= HIDDEN_BIT * d) by (nonlinear_arith)
            requires
                n == max * pow2(k),
                d == 2 * max,
                pow2(k) == 0x20_0000_0000_0000,
                HIDDEN_BIT == 0x10_0000_0000_0000,
        ;
    }
}

proof fn lemma_grain_divides(side: nat, k: nat)
    requires
        side <= 0xffff_ffff,
        k <= 32,
    ensures
        grain(side * 0x10_0000_0000_0000, pow2(k)) > 0,
        0x10_0000_0000_0000nat % grain(side * 0x10_0000_0000_0000, pow2(k)) == 0,
    decreases 32 - k,
{
    lemma2_to64();
    lemma2_to64_rest();
    lemma_pow2_pos(k);
    let p = side * 0x10_0000_0000_0000;
    if p >= MANTISSA_LIMIT * pow2(k) {
        assert(k != 32);
        lemma_pow2_unfold(k + 1);
        lemma_grain_divides(side, k + 1);
    } else {
        let rest = (52 - k) as nat;
        lemma_pow2_adds(k, rest);
        lemma_mod_multiples_basic(pow2(rest) as int, pow2(k) as int);
        assert(pow2(rest) * pow2(k) == pow2(52)) by (nonlinear_arith)
            requires
                pow2(k) * pow2(rest) == pow2(52),
        ;
    }
}

/// Where a picture is shrunk to half its size, each side is halved, and half a pixel counts as one.
pub proof fn halves_go_up(side: u32, longest: u32, max: u32, scaled: u32)
    requires
        call_ensures(scaled_side, (side, longest, max), scaled),
        longest == 2 * max,
        max > 0,
        side > 0,
    ensures
        side % 2 == 0 ==> 2 * scaled == side,
        side % 2 == 1 ==> 2 * scaled == side + 1,
{
    lemma2_to64();
    lemma2_to64_rest();
    let (n, d) = (max as nat, longest as nat);
    lemma_half_scaled(n, 0);
    assert(n * pow2(0) == n);
    assert(scale_up(n, d, 1) == (n * pow2(53), pow2(53)));
    let half: nat = 0x10_0000_0000_0000;
    assert(n * pow2(53) == half * d) by (nonlinear_arith)
        requires
            pow2(53) == 0x20_0000_0000_0000,
            half == 0x10_0000_0000_0000,
            d == 2 * n,
    ;
    lemma_fundamental_div_mod_converse((half * d) as int, d as int, half as int, 0);
    assert(binary64_ratio(n, d) == (half, pow2(53)));
    let p = side as nat * half;
    let g = grain(p, 1);
    lemma_grain_divides(side as nat, 0);
    let m = half / g;
    lemma_fundamental_div_mod(half as int, g as int);
    assert(p == (side * m) * g) by (nonlinear_arith)
        requires
            half == g * m,
            p == side as nat * half,
    ;
    lemma_fundamental_div_mod_converse(p as int, g as int, side * m, 0);
    assert(binary64_integer(p) == p);
    let unit = pow2(53);
    let (up, left) = ((side + 1) / 2, (side + 1) % 2);
    lemma_fundamental_div_mod_converse((2 * p + unit) as int, 2 * unit as int, up, left * unit);
    assert((2 * p + unit) / (2 * unit) == up);
}

/// A picture with all its pixels can be encoded, as long as sixteen bytes for each of them fit into
/// memory; there may be bytes behind the last pixel, but not in a PNG file of a picture that need not be
/// shrunk. A picture without all its pixels cannot.
pub proof fn pictures_with_all_pixels_can_be_encoded(
    length: usize,
    width: u32,
    height: u32,
    max: u32,
    format: &str,
    yes: bool,
)
    requires
        call_ensures(is_encodable, (length, width, height, max, format), yes),
        1 <= max <= 65535,
        width > 0 && height > 0,
        16 * (width * height) <= isize::MAX,
    ensures
        length < 4 * (width * height) ==> !yes,
        length == 4 * (width * height) ==> yes,
        length > 4 * (width * height) ==> (yes <==> format@ == "jpeg"@ || width > max || height > max),
{
    whole_pictures_can_be_encoded(width, height, max, format@);
    output_fits(width, height, max);
    let (_, new_height) = shrunk_size(width, height, max);
    assert(width * new_height <= width * height) by (nonlinear_arith)
        requires
            new_height <= height,
    ;
    assert(width <= width * height) by (nonlinear_arith)
        requires
            height >= 1,
    ;
}

/// The pixels of a whole picture always become the screenshot that is to be saved, and so does the
/// picture of a window.
pub proof fn whole_pictures_become_screenshots(
    args: &TakeScreenshot,
    capture: EngineCapture,
    options: ScreenshotOptions,
    pixels: Seq<u8>,
    result: Option<Result<ScreenshotStep, String>>,
    window: WindowCapture,
    engine_error: String,
    fallback: Option<Result<ScreenshotStep, String>>,
)
    requires
        call_ensures(engine_screenshot, (args, capture), result),
        call_ensures(screenshot_options, (args,), Ok(options)),
        call_ensures(window_screenshot, (args, window, engine_error), fallback),
        options.save_to_file,
        base64_decoded(capture.read.pixels@) == Ok::<Seq<u8>, Seq<char>>(pixels),
        pixels.len() == 4 * (capture.read.width * capture.read.height),
        capture.read.width > 0 && capture.read.height > 0,
        16 * (capture.read.width * capture.read.height) <= isize::MAX,
        window.image.pixels@.len() == 4 * (window.image.width * window.image.height),
        window.image.width > 0 && window.image.height > 0,
        16 * (window.image.width * window.image.height) <= isize::MAX,
    ensures
        result matches Some(Ok(step)) && step is Save,
        fallback matches Some(Ok(step)) && step is Save,
{
    let (max, format) = (options.max_dimension, options.format@);
    whole_pictures_can_be_encoded(capture.read.width, capture.read.height, max, format);
    encoding_succeeds(capture.read.width, capture.read.height, max, format);
    whole_pictures_can_be_encoded(window.image.width, window.image.height, max, format);
    encoding_succeeds(window.image.width, window.image.height, max, format);
}

} // verus!
