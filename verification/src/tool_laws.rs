//! What the tools promise: their time limits, the scripts they run, the screenshots they hand over and
//! the windows they find, said of their arguments and results.

use crate::binary64::{round_half_even, Real, HIDDEN_BIT};
use crate::encoding::{base64_decoded, base64_reads_back, base64_text};
use crate::os_capture::{is_best, CandidateWindow};
use crate::os_window::{
    any_match, describes, first_match, lowered_title_matches, open_studio_window, stem_spec,
    studio_title, title_matches, ListedWindow, StudioWindowInfo,
};
use crate::picture::{
    byte_count, encodable, encode_spec, holds, jpeg_encoded, labelled, longest_side, output_fits,
    png_encoded, resized, screenshot_spec, screenshot_succeeds, shrunk_pixels, shrunk_size,
    without_alpha, EncodedView, ReadReply, RgbaImage,
};
use crate::role::TargetRole;
use crate::screenshot::{
    deliverable, delivers, engine_picture, file_name_spec, format_spec, hands_over,
    max_dimension_spec, tells_engine, tells_window, CaptureViewport, ScreenshotOrigin,
    window_picture, ScreenshotStep, ScreenshotToolOutput,
};
use crate::seconds::{
    clamped_whole, is_whole, magnitude, steps_nanos, steps_seconds, whole_seconds_are_exact,
    whole_steps,
};
use crate::server::{follows_plan, refused, replies, RoleRule, ToolReply, ToolStep};
use crate::text::{contains_text, lowercase, trim_spec};
use crate::text_laws::found_text_stands_between;
use crate::timing::{execution_timeout_spec, whole_seconds_spec};
use crate::tools::{
    follows_script, script_target_spec, ControlCharacter, InputSequence, InputStep, MouseDrag, RunCodeFromFile,
    RunScriptInPlayMode, SendKey, TakeScreenshot, TakeScreenshotCapture, TakeScreenshotRead,
    ToolArgumentValues, ToolPlan, WaitFor,
};
use vstd::arithmetic::div_mod::{lemma_fundamental_div_mod, lemma_fundamental_div_mod_converse};
use vstd::arithmetic::power2::{lemma2_to64, lemma2_to64_rest, lemma_pow2_adds, lemma_pow2_pos, pow2};
use vstd::prelude::*;

verus! {

/// A tool that has no time limit of its own may take five minutes.
pub proof fn tools_without_a_limit_may_take_five_minutes(args: ToolArgumentValues)
    requires
        args is RunCode || args is InsertModel || args is GetConsoleOutput || args is GetErrors
            || args is StartStopPlay || args is GetStudioMode || args is GetUiTree || args is ClickUi
            || args is FindUi || args is ListPrompts || args is MouseMove || args is ClickObject
            || args is SetCamera || args is SendText,
    ensures
        execution_timeout_spec(args) == 300_000_000_000,
{
}

/// A script in play mode has the seconds that it asks for, or a hundred, and a minute more. A capture
/// has half a minute, and reading its pixels a minute and a half.
pub proof fn scripts_and_captures_have_their_time(
    script: RunScriptInPlayMode,
    capture: TakeScreenshotCapture,
    read: TakeScreenshotRead,
)
    ensures
        script.timeout matches Some(seconds) ==> execution_timeout_spec(
            ToolArgumentValues::RunScriptInPlayMode(script),
        ) == (seconds + 60) * 1_000_000_000,
        script.timeout is None ==> execution_timeout_spec(
            ToolArgumentValues::RunScriptInPlayMode(script),
        ) == 160_000_000_000,
        execution_timeout_spec(ToolArgumentValues::TakeScreenshotCapture(capture)) == 30_000_000_000,
        execution_timeout_spec(ToolArgumentValues::TakeScreenshotRead(read)) == 90_000_000_000,
{
}

/// Whether so many nanoseconds are a number of seconds, held between two bounds and rounded to the
/// nearest nanosecond.
pub open spec fn is_clamped(nanos: int, number: Real, low: int, high: int) -> bool {
    let (n, d) = magnitude(number);
    let exact = n * 1_000_000_000;
    &&& low <= nanos <= high
    &&& number.negative() ==> nanos == low
    &&& !number.negative() && number.infinite() ==> nanos == high
    &&& !number.negative() && !number.infinite() ==> {
        &&& exact >= high * d ==> nanos == high
        &&& exact <= low * d ==> nanos == low
        &&& low * d < exact < high * d ==> 2 * (nanos * d) <= 2 * exact + d && 2 * exact <= 2 * (nanos
            * d) + d
    }
}

proof fn lemma_clamped(number: Real, low: u64, high: u64)
    requires
        low <= high,
    ensures
        is_clamped(number.clamped_nanos_spec(low, high) as int, number, low as int, high as int),
{
    if !number.negative() && !number.infinite() {
        let (n, d) = magnitude(number);
        let exact = n * 1_000_000_000;
        if number.down_shift() >= 0 {
            lemma_pow2_pos(number.down_shift() as nat);
            let rounded = round_half_even(exact, d);
            assert(number.magnitude_nanos() == rounded);
            crate::binary64::rounding_error(exact, d);
            lemma_round_bounds(exact, d, low as nat);
            lemma_round_bounds(exact, d, high as nat);
        } else {
            let up = pow2((-number.down_shift()) as nat);
            assert(number.magnitude_nanos() == exact) by {
                assert((number.mantissa() * 1_000_000_000) * up == (number.mantissa() * up)
                    * 1_000_000_000) by (nonlinear_arith);
            }
        }
    }
}

proof fn lemma_round_bounds(n: nat, d: nat, bound: nat)
    requires
        d > 0,
    ensures
        n >= bound * d ==> round_half_even(n, d) >= bound,
        n <= bound * d ==> round_half_even(n, d) <= bound,
{
    let q = n / d;
    let r = n % d;
    lemma_fundamental_div_mod(n as int, d as int);
    if n >= bound * d {
        assert(q >= bound) by (nonlinear_arith)
            requires
                n == d * q + r,
                0 <= r < d,
                n >= bound * d,
        ;
    }
    if n <= bound * d {
        assert(q < bound || (q == bound && r == 0)) by (nonlinear_arith)
            requires
                n == d * q + r,
                0 <= r < d,
                n <= bound * d,
                d > 0,
        ;
    }
}

/// A key that is held, a character that moves, a condition that is waited for and a drag have the
/// time that they ask for, within the bounds of their kind, or the usual time of their kind; and half
/// a minute more, or a minute for a condition.
pub proof fn timed_tools_have_the_time_they_ask_for(
    key: SendKey,
    character: ControlCharacter,
    wait: WaitFor,
    drag: MouseDrag,
)
    ensures
        ({
            let time = execution_timeout_spec(ToolArgumentValues::SendKey(key)) - 30_000_000_000;
            match key.duration {
                Some(seconds) => is_clamped(time, seconds, 0, 30_000_000_000),
                None => time == 0,
            }
        }),
        ({
            let time = execution_timeout_spec(ToolArgumentValues::ControlCharacter(character))
                - 30_000_000_000;
            match character.duration {
                Some(seconds) => is_clamped(time, seconds, 0, 60_000_000_000),
                None => time == 15_000_000_000,
            }
        }),
        ({
            let time = execution_timeout_spec(ToolArgumentValues::WaitFor(wait)) - 60_000_000_000;
            match wait.timeout {
                Some(seconds) => is_clamped(time, seconds, 100_000_000, 600_000_000_000),
                None => time == 30_000_000_000,
            }
        }),
        ({
            let time = execution_timeout_spec(ToolArgumentValues::MouseDrag(drag)) - 30_000_000_000;
            match drag.duration {
                Some(seconds) => is_clamped(time, seconds, 50_000_000, 10_000_000_000),
                None => time == 500_000_000,
            }
        }),
{
    if let Some(seconds) = key.duration {
        lemma_clamped(seconds, 0, 30_000_000_000);
    }
    if let Some(seconds) = character.duration {
        lemma_clamped(seconds, 0, 60_000_000_000);
    }
    if let Some(seconds) = wait.timeout {
        lemma_clamped(seconds, 100_000_000, 600_000_000_000);
    }
    if let Some(seconds) = drag.duration {
        lemma_clamped(seconds, 50_000_000, 10_000_000_000);
    }
}

/// Whether a time is a whole number of seconds once it is held between zero and `high`; none counts as
/// zero.
pub open spec fn is_whole_within(time: Option<Real>, high: nat, seconds: nat) -> bool {
    match time {
        None => seconds == 0,
        Some(number) => {
            let (n, d) = magnitude(number);
            &&& !number.infinite() && n % d == 0
            &&& number.negative() ==> seconds == 0
            &&& !number.negative() && n > high * d ==> seconds == high
            &&& !number.negative() && n <= high * d ==> n == seconds * d
        },
    }
}

/// A sequence of one step takes a second, the step's pause of at most ten seconds and its hold of at
/// most thirty, and a minute more.
pub proof fn a_step_takes_its_pause_and_its_hold(
    sequence: InputSequence,
    step: InputStep,
    pause: nat,
    hold: nat,
)
    requires
        sequence.steps@ == seq![step],
        is_whole_within(step.seconds, 10, pause),
        is_whole_within(step.duration, 30, hold),
    ensures
        execution_timeout_spec(ToolArgumentValues::InputSequence(sequence)) == (61 + pause + hold)
            * 1_000_000_000,
{
    let steps = sequence.steps@;
    lemma_whole_within(step.seconds, 10, pause);
    lemma_whole_within(step.duration, 30, hold);
    assert(steps.drop_last() =~= Seq::<InputStep>::empty());
    assert(steps_seconds(steps.drop_last()) == 0);
    assert(steps.last() == step);
    assert(whole_steps(steps));
    crate::seconds::steps_take_seconds(steps);
    whole_seconds_are_exact(steps);
}

proof fn lemma_whole_within(time: Option<Real>, high: nat, seconds: nat)
    requires
        is_whole_within(time, high, seconds),
    ensures
        is_whole(time),
        clamped_whole(time, high) == seconds,
{
    if let Some(number) = time {
        let (n, d) = magnitude(number);
        if number.down_shift() >= 0 {
            lemma_pow2_pos(number.down_shift() as nat);
        }
        if !number.negative() && n <= high * d {
            lemma_fundamental_div_mod_converse(n as int, d as int, seconds as int, 0);
        }
    }
}

/// A sequence takes its steps and a minute more: an empty one takes a minute.
pub proof fn sequences_take_their_steps(sequence: InputSequence)
    ensures
        execution_timeout_spec(ToolArgumentValues::InputSequence(sequence)) == steps_nanos(
            sequence.steps@,
        ) + 60_000_000_000,
        sequence.steps@.len() == 0 ==> steps_nanos(sequence.steps@) == 0,
{
    if sequence.steps@.len() == 0 {
        assert(round_half_even(0, HIDDEN_BIT as nat) == 0);
    }
}

/// The whole seconds of a time are those that have passed in full.
pub proof fn whole_seconds_have_passed(nanos: nat)
    ensures
        whole_seconds_spec(nanos) * 1_000_000_000 <= nanos,
        nanos < (whole_seconds_spec(nanos) + 1) * 1_000_000_000,
{
}

/// A script file whose context and mode exist runs as the code that it holds, with the context, the
/// mode and the limit of the request, on the DataModel that the context names.
pub proof fn script_files_run_as_their_code(
    plan: ToolPlan,
    args: RunCodeFromFile,
    quoted_path: Seq<char>,
    command: String,
)
    requires
        follows_script(plan, args, quoted_path, Ok(command)),
        trim_spec(command@).len() > 0,
        args.mode is None || args.mode->0@ == "output"@ || args.mode->0@ == "execute"@,
        args.context is None || args.context->0@ == "edit"@ || args.context->0@ == "server"@
            || args.context->0@ == "client"@,
    ensures
        plan matches ToolPlan::Run { args: ToolArgumentValues::RunCode(code), target } && {
            &&& code.command == command
            &&& code.context == args.context
            &&& code.mode == args.mode
            &&& code.max_lines == args.max_lines
            &&& target == if args.context is Some && args.context->0@ == "server"@ {
                TargetRole::Server
            } else if args.context is Some && args.context->0@ == "client"@ {
                TargetRole::Client
            } else {
                TargetRole::Edit
            }
        },
{
    reveal_strlit("edit");
    reveal_strlit("server");
    reveal_strlit("client");
    assert("edit"@.len() == 4 && "server"@.len() == 6 && "client"@.len() == 6);
    assert("server"@[0] != "client"@[0]);
}

/// A script file that cannot be read, or holds nothing but white space, is refused by a message that
/// names it.
pub proof fn bad_script_files_are_refused(
    plan: ToolPlan,
    args: RunCodeFromFile,
    quoted_path: Seq<char>,
    contents: Result<String, String>,
)
    requires
        follows_script(plan, args, quoted_path, contents),
        args.context is None,
        args.mode is None,
        contents is Err || trim_spec(contents->Ok_0@).len() == 0,
    ensures
        plan matches ToolPlan::Refuse { message } && contains_text(message@, quoted_path) && (
        contents matches Err(reason) ==> contains_text(message@, reason@)),
{
    let message = plan->Refuse_message@;
    match contents {
        Err(reason) => {
            assert(message =~= "Could not read script file "@ + quoted_path + (": "@ + reason@));
            assert(message =~= ("Could not read script file "@ + quoted_path + ": "@) + reason@
                + Seq::<char>::empty());
            found_text_stands_between(message, reason@);
        },
        Ok(_) => {
            assert(message =~= "Script file "@ + quoted_path + " is empty."@);
        },
    }
    found_text_stands_between(message, quoted_path);
}

/// A tool call runs its own command on the window that was resolved: on its own target, or on one
/// that the mode decides. Where no window could be resolved, or the arguments are refused, it is
/// answered with that error, and nothing runs.
pub proof fn tool_calls_follow_their_plan(
    step: ToolStep,
    plan: ToolPlan,
    resolved: Result<Option<String>, String>,
)
    requires
        follows_plan(step, plan, resolved),
    ensures
        plan matches ToolPlan::Run { args, target } ==> resolved matches Ok(instance) ==> (step matches ToolStep::Execute {
            args: a,
            target: t,
            instance: i,
        } && a == args && t == target && i == instance),
        plan matches ToolPlan::PlayAware { args, run_server_role } ==> resolved matches Ok(instance) ==> (
        step matches ToolStep::AskMode { pending } && pending.args == args && pending.instance == instance
            && (pending.rule matches RoleRule::PlayAware { run_server_role: r } && r == run_server_role)),
        plan matches ToolPlan::Rendering { args } ==> resolved matches Ok(instance) ==> (step matches ToolStep::AskMode {
            pending,
        } && pending.args == args && pending.instance == instance && pending.rule is Rendering),
        plan matches ToolPlan::Refuse { message } ==> (step matches ToolStep::Reply {
            reply: ToolReply::Error { text },
        } && text@ == message@),
        plan matches ToolPlan::RefuseResolved { message } ==> resolved is Ok ==> (step matches ToolStep::Reply {
            reply: ToolReply::Error { text },
        } && text@ == message@),
        plan !is Refuse && resolved is Err ==> (step matches ToolStep::Reply {
            reply: ToolReply::Error { text },
        } && text@ == resolved->Err_0@),
{
}

/// A tool call is answered with its result: with success where it succeeded, with an error where it
/// failed, and with the text either way.
pub proof fn results_answer_tool_calls(reply: ToolReply, result: Result<Seq<char>, Seq<char>>)
    requires
        replies(reply, result),
    ensures
        result matches Ok(text) ==> (reply matches ToolReply::Success { text: t } && t@ == text),
        result matches Err(text) ==> (reply matches ToolReply::Error { text: t } && t@ == text),
{
}

/// An error that refuses a tool call answers it.
pub proof fn refusals_are_errors(step: ToolStep, message: Seq<char>)
    requires
        refused(step, message),
    ensures
        step matches ToolStep::Reply { reply: ToolReply::Error { text } } && text@ == message,
{
}

/// A screenshot is a PNG file unless a JPEG file is asked for, under either of its names; every other
/// format is refused by name.
pub proof fn formats_are_png_and_jpeg(format: Seq<char>)
    ensures
        format_spec(None) == Ok::<Seq<char>, Seq<char>>(seq!['p', 'n', 'g']),
        format_spec(Some(format)) == Ok::<Seq<char>, Seq<char>>(seq!['p', 'n', 'g']) <==> format
            == seq!['p', 'n', 'g'],
        format_spec(Some(format)) == Ok::<Seq<char>, Seq<char>>(seq!['j', 'p', 'e', 'g']) <==> format
            == seq!['j', 'p', 'e', 'g'] || format == seq!['j', 'p', 'g'],
        format_spec(Some(format)) is Ok ==> format == seq!['p', 'n', 'g'] || format
            == seq!['j', 'p', 'e', 'g'] || format == seq!['j', 'p', 'g'],
        format_spec(Some(format)) matches Err(message) ==> contains_text(message, format),
{
    reveal_strlit("png");
    reveal_strlit("jpeg");
    reveal_strlit("jpg");
    assert("png"@ =~= seq!['p', 'n', 'g']);
    assert("jpeg"@ =~= seq!['j', 'p', 'e', 'g']);
    assert("jpg"@ =~= seq!['j', 'p', 'g']);
    assert("png"@[0] != "jpg"@[0]);
    assert("png"@.len() == 3 && "jpeg"@.len() == 4 && "jpg"@.len() == 3);
    if format_spec(Some(format)) is Err {
        found_text_stands_between(format_spec(Some(format))->Err_0, format);
    }
}

/// The longest side of a screenshot is the side that is asked for, from one pixel to 4096, and 1280
/// where none is.
pub proof fn sides_are_as_asked_for(side: u32)
    ensures
        max_dimension_spec(None) == 1280,
        1 <= side <= 4096 ==> max_dimension_spec(Some(side)) == side,
        side > 4096 ==> max_dimension_spec(Some(side)) == 4096,
        side == 0 ==> max_dimension_spec(Some(side)) == 1,
{
}

/// A screenshot that is handed over holds the encoded picture: in a file of its own where it is to be
/// saved, and otherwise in base64 that reads back as the picture. Its size and its media type go with
/// it.
pub proof fn screenshots_hold_the_picture(
    step: ScreenshotStep,
    encoded: EncodedView,
    format: Seq<char>,
    save_to_file: bool,
)
    requires
        hands_over(step, encoded, format, save_to_file),
    ensures
        save_to_file ==> (step matches ScreenshotStep::Save { file } && file.bytes@ == encoded.bytes
            && file.mime@ == encoded.mime && file.width == encoded.width && file.height
            == encoded.height),
        !save_to_file ==> (step matches ScreenshotStep::Done {
            output: ScreenshotToolOutput::Inline { data, mime, meta },
        } && base64_decoded(data@) == Ok::<Seq<u8>, Seq<char>>(encoded.bytes) && mime@ == encoded.mime
            && meta.mime@ == encoded.mime && meta.width == encoded.width && meta.height
            == encoded.height && meta.path is None),
{
    base64_reads_back(encoded.bytes);
}

/// A picture that was encoded is handed over where its text fits into memory or none is needed, one
/// that could not be encoded is told of, and nothing else is answered.
pub proof fn encoded_pictures_are_delivered(
    result: Option<Result<ScreenshotStep, String>>,
    encoded: EncodedView,
    reason: Seq<char>,
    format: Seq<char>,
    save_to_file: bool,
)
    ensures
        deliverable(encoded, save_to_file) == (save_to_file || base64_text(encoded.bytes).len()
            <= isize::MAX),
        delivers(result, Some(Ok(encoded)), format, save_to_file) && deliverable(encoded, save_to_file)
            ==> (result matches Some(Ok(step)) && hands_over(step, encoded, format, save_to_file)),
        delivers(result, Some(Err(reason)), format, save_to_file) ==> (result matches Some(Err(message))
            && message@ == reason),
        delivers(result, None, format, save_to_file) ==> result is None,
{
}

/// The name of a screenshot's file says what it is, and has an id in it.
pub proof fn file_names_tell_the_format(id: u128, format: Seq<char>)
    ensures
        format == "jpeg"@ ==> file_name_spec(id, format) == "screenshot-"@ + crate::encoding::uuid_text(
            id,
        ) + ".jpg"@,
        format != "jpeg"@ ==> file_name_spec(id, format) == "screenshot-"@ + crate::encoding::uuid_text(
            id,
        ) + ".png"@,
{
    reveal_strlit(".jpg");
    reveal_strlit(".png");
    reveal_strlit("jpg");
    reveal_strlit("png");
    reveal_strlit(".");
    assert("."@ + "jpg"@ =~= ".jpg"@);
    assert("."@ + "png"@ =~= ".png"@);
    let front = "screenshot-"@ + crate::encoding::uuid_text(id);
    assert(front + "."@ + "jpg"@ =~= front + ("."@ + "jpg"@));
    assert(front + "."@ + "png"@ =~= front + ("."@ + "png"@));
}

/// The metadata of a capture inside the engine tell the viewport, the mode and the DataModel of the
/// capture, and the element that was asked for.
pub proof fn engine_metadata_tell_the_capture(
    origin: ScreenshotOrigin,
    viewport: CaptureViewport,
    mode: String,
    role: TargetRole,
    args: TakeScreenshot,
)
    requires
        tells_engine(origin, viewport, mode, role, args),
    ensures
        origin matches ScreenshotOrigin::Engine { viewport: v, studio_mode, captured_on, ui_path, isolate, .. }
            && {
            &&& v == viewport
            &&& studio_mode@ == mode@
            &&& captured_on@ == role.title_text()
            &&& args.ui_path is None ==> ui_path is None
            &&& args.ui_path matches Some(path) ==> (ui_path matches Some(p) && p@ == path@)
            &&& isolate == (args.isolate matches Some(yes) && yes)
        },
{
}

/// The metadata of a capture of the window tell its title and why the engine's own capture failed.
pub proof fn window_metadata_tell_the_failure(
    origin: ScreenshotOrigin,
    title: String,
    engine_error: String,
)
    requires
        tells_window(origin, title, engine_error),
    ensures
        origin matches ScreenshotOrigin::Window { window_title, engine_error: e, .. } && window_title@
            == title@ && e@ == engine_error@,
{
}

/// The longest side of a picture is one of its sides, and no side is longer.
pub proof fn no_side_is_longer(width: u32, height: u32)
    ensures
        longest_side(width, height) >= width,
        longest_side(width, height) >= height,
        longest_side(width, height) == width || longest_side(width, height) == height,
{
}

/// A picture has four bytes to a pixel, and what holds so many bytes holds it.
pub proof fn pictures_have_four_bytes_to_a_pixel(width: u32, height: u32, length: nat)
    ensures
        byte_count(width, height) == 4 * width * height,
        width <= 0x3fff_ffff && 4 * width * height <= length ==> holds(length, width, height),
        4 * width * height > length ==> !holds(length, width, height),
{
    assert(4 * (width * height) == 4 * width * height) by (nonlinear_arith);
}

/// Without its alpha byte each pixel keeps its red, green and blue bytes, in the order of the pixels.
pub proof fn pixels_keep_their_colours(pixels: Seq<u8>, width: u32, height: u32, pixel: int, colour: int)
    requires
        0 <= pixel < width * height,
        0 <= colour < 3,
    ensures
        without_alpha(pixels, width, height).len() == 3 * (width * height),
        without_alpha(pixels, width, height)[3 * pixel + colour] == pixels[4 * pixel + colour],
{
    let at = 3 * pixel + colour;
    assert(at / 3 == pixel && at % 3 == colour);
    assert(0 <= at < 3 * (width * height));
}

/// A picture is encoded as it is where it fits, and otherwise shrunk first. It becomes a JPEG file,
/// without its alpha, where one is asked for, and a PNG file otherwise; and it has the media type and
/// the size of the file.
pub proof fn pictures_become_files(
    pixels: Seq<u8>,
    width: u32,
    height: u32,
    max: u32,
    format: Seq<char>,
)
    ensures
        ({
            let (new_width, new_height) = shrunk_size(width, height, max);
            let shown = if width <= max && height <= max {
                pixels
            } else {
                resized(pixels, width, height, new_width, new_height)
            };
            let file = if format == "jpeg"@ {
                jpeg_encoded(without_alpha(shown, new_width, new_height), new_width, new_height, 85)
            } else {
                png_encoded(shown, new_width, new_height)
            };
            &&& shrunk_pixels(pixels, width, height, max) == shown
            &&& match encode_spec(pixels, width, height, max, format) {
                Ok(encoded) => {
                    &&& file == Ok::<Seq<u8>, Seq<char>>(encoded.bytes)
                    &&& encoded.width == new_width && encoded.height == new_height
                    &&& encoded.mime == if format == "jpeg"@ {
                        "image/jpeg"@
                    } else {
                        "image/png"@
                    }
                },
                Err(message) => file matches Err(reason) && contains_text(message, reason),
            }
        }),
{
    let (new_width, new_height) = shrunk_size(width, height, max);
    let shown = shrunk_pixels(pixels, width, height, max);
    let file = if format == "jpeg"@ {
        jpeg_encoded(without_alpha(shown, new_width, new_height), new_width, new_height, 85)
    } else {
        png_encoded(shown, new_width, new_height)
    };
    if let Err(reason) = file {
        let message = labelled(file, format, new_width, new_height)->Err_0;
        let nothing = Seq::<char>::empty();
        if format == "jpeg"@ {
            assert(message =~= "JPEG encoding failed: "@ + reason + nothing);
        } else {
            assert(message =~= "PNG encoding failed: "@ + reason + nothing);
        }
        found_text_stands_between(message, reason);
    }
}

/// A picture with all its bytes and no more can be encoded where it need not be shrunk; and where it
/// has to be shrunk, as long as sixteen bytes for each of its pixels fit into memory.
pub proof fn whole_pictures_can_be_encoded(width: u32, height: u32, max: u32, format: Seq<char>)
    requires
        1 <= max <= 65535,
        width > 0 && height > 0,
        16 * (width * height) <= isize::MAX,
    ensures
        encodable(byte_count(width, height), width, height, max, format),
{
    output_fits(width, height, max);
    let (_, new_height) = shrunk_size(width, height, max);
    assert(width * new_height <= width * height) by (nonlinear_arith)
        requires
            new_height <= height,
    ;
    assert(width <= width * height) by (nonlinear_arith)
        requires
            height >= 1,
    ;
}

/// Pixels that are not base64, and pixels that are too few for the size that goes with them, are
/// refused; other pixels are encoded.
pub proof fn bad_pixels_are_refused(
    read: ReadReply,
    pixels: Seq<u8>,
    max: u32,
    format: Seq<char>,
)
    ensures
        base64_decoded(read.pixels@) matches Err(reason) ==> (screenshot_spec(
            base64_decoded(read.pixels@),
            read.width,
            read.height,
            max,
            format,
        ) matches Err(message) && contains_text(message, reason)),
        pixels.len() < 4 * (read.width * read.height) ==> screenshot_spec(
            Ok(pixels),
            read.width,
            read.height,
            max,
            format,
        ) is Err && !screenshot_succeeds(Ok(pixels), read.width, read.height, max, format),
        holds(pixels.len(), read.width, read.height) ==> screenshot_spec(
            Ok(pixels),
            read.width,
            read.height,
            max,
            format,
        ) == encode_spec(pixels, read.width, read.height, max, format),
        engine_picture(read, max, format) matches Some(picture) ==> picture == screenshot_spec(
            base64_decoded(read.pixels@),
            read.width,
            read.height,
            max,
            format,
        ),
{
    if let Err(reason) = base64_decoded(read.pixels@) {
        let message = "Invalid base64 pixel data from Studio: "@ + reason;
        assert(message =~= "Invalid base64 pixel data from Studio: "@ + reason + Seq::<char>::empty());
        found_text_stands_between(message, reason);
    }
}

/// The window that is captured is a Studio window and not minimized. Where a Studio window is focused,
/// a focused one is captured; otherwise none is larger.
pub proof fn the_focused_or_largest_window_is_captured(windows: Seq<CandidateWindow>, at: int, other: int)
    requires
        is_best(windows, at),
        0 <= other < windows.len(),
        contains_text(windows[other].title@, "Roblox Studio"@),
        !windows[other].minimized,
    ensures
        0 <= at < windows.len(),
        contains_text(windows[at].title@, "Roblox Studio"@),
        !windows[at].minimized,
        windows[other].focused ==> windows[at].focused,
        !windows[at].focused ==> windows[other].width * windows[other].height <= windows[at].width
            * windows[at].height,
        windows[other].focused && windows[at].focused ==> at <= other,
{
    let best = windows[at];
    assert(best.width * best.height <= 0xffff_ffff * 0xffff_ffff) by (nonlinear_arith)
        requires
            best.width <= 0xffff_ffff,
            best.height <= 0xffff_ffff,
    ;
}

/// A window counts as an open Studio window where it is visible and its title says so, and it is
/// reported with its title, whether it is minimized, and whether it is the one in front.
pub proof fn studio_windows_are_reported(window: ListedWindow, info: StudioWindowInfo, foreground: i64)
    ensures
        studio_title(window.title@) == contains_text(window.title@, "Roblox Studio"@),
        open_studio_window(window) == (window.visible && contains_text(
            window.title@,
            "Roblox Studio"@,
        )),
        describes(info, window, foreground) ==> {
            &&& info.title@ == window.title@
            &&& info.minimized == window.minimized
            &&& info.foreground == (window.handle == foreground)
        },
{
}

/// A window's title matches a place's name that is part of it, but for the case, whether or not the
/// name carries the extension of a place file.
pub proof fn titles_match_place_names(title: Seq<char>, name: Seq<char>, lowered: Seq<char>, stem: Seq<char>)
    ensures
        contains_text(lowercase(title), lowercase(name)) ==> title_matches(title, name),
        contains_text(lowered, stem) ==> lowered_title_matches(lowered, stem),
        stem.len() > 0 && contains_text(lowered, stem) && stem_spec(stem) == stem
            ==> lowered_title_matches(lowered, stem + ".rbxl"@) && lowered_title_matches(
            lowered,
            stem + ".rbxlx"@,
        ),
        title_matches(title, name) ==> contains_text(lowercase(title), lowercase(name)) || (stem_spec(
            lowercase(name),
        ).len() > 0 && contains_text(lowercase(title), stem_spec(lowercase(name)))),
{
    if stem.len() > 0 && stem_spec(stem) == stem {
        lemma_stem(stem);
    }
}

proof fn lemma_stem(stem: Seq<char>)
    requires
        stem_spec(stem) == stem,
    ensures
        stem_spec(stem + ".rbxl"@) == stem,
        stem_spec(stem + ".rbxlx"@) == stem,
{
    reveal_strlit(".rbxl");
    reveal_strlit(".rbxlx");
    let short = ".rbxl"@;
    let long = ".rbxlx"@;
    let a = crate::text::trim_end_matches_spec(stem, long);
    lemma_trim_shrinks(stem, long);
    lemma_trim_shrinks(a, short);
    assert(a == stem);
    assert(crate::text::trim_end_matches_spec(stem, short) == stem);
    let x = stem + short;
    let from = x.len() - long.len();
    if from >= 0 && x.subrange(from, x.len() as int) == long {
        assert(x.subrange(from, x.len() as int)[5] == x[x.len() - 1]);
        assert(x[x.len() - 1] == short[4]);
        assert(long[5] == 'x' && short[4] == 'l');
    }
    assert(crate::text::trim_end_matches_spec(x, long) == x);
    assert(x.subrange(x.len() - short.len(), x.len() as int) =~= short);
    assert(x.take(x.len() - short.len()) =~= stem);
    assert(crate::text::trim_end_matches_spec(x, short) == stem);
    let y = stem + long;
    assert(y.subrange(y.len() - long.len(), y.len() as int) =~= long);
    assert(y.take(y.len() - long.len()) =~= stem);
    assert(crate::text::trim_end_matches_spec(y, long) == stem);
}

proof fn lemma_trim_shrinks(text: Seq<char>, suffix: Seq<char>)
    ensures
        crate::text::trim_end_matches_spec(text, suffix).len() <= text.len(),
        crate::text::trim_end_matches_spec(text, suffix).len() == text.len()
            ==> crate::text::trim_end_matches_spec(text, suffix) == text,
    decreases text.len(),
{
    if 0 < suffix.len() && crate::text::occurs_at(text, suffix, text.len() - suffix.len()) {
        lemma_trim_shrinks(text.take(text.len() - suffix.len()), suffix);
    }
}

/// The window that a hint picks is the first of those it matches; a hint picks one exactly where some
/// window matches it.
pub proof fn hints_pick_the_first_match(titles: Seq<Seq<char>>, hint: Seq<char>, at: int, other: int)
    requires
        0 <= other < titles.len(),
        title_matches(titles[other], hint),
    ensures
        any_match(titles, Some(hint)),
        !any_match(titles, None),
        first_match(titles, hint, at) ==> 0 <= at <= other && title_matches(titles[at], hint),
{
}

/// The arguments of a script file are accepted exactly where both the context and the mode exist, and
/// then name the DataModel of the context.
pub proof fn scripts_go_where_the_context_says(context: Option<Seq<char>>, mode: Option<Seq<char>>)
    ensures
        script_target_spec(context, mode) is Ok <==> {
            &&& context is None || context->0 == "edit"@ || context->0 == "server"@ || context->0
                == "client"@
            &&& mode is None || mode->0 == "output"@ || mode->0 == "execute"@
        },
        script_target_spec(context, mode) matches Ok(target) ==> {
            &&& context is None || context->0 == "edit"@ ==> target == TargetRole::Edit
            &&& context is Some && context->0 == "server"@ ==> target == TargetRole::Server
            &&& context is Some && context->0 == "client"@ ==> target == TargetRole::Client
        },
{
    reveal_strlit("edit");
    reveal_strlit("server");
    reveal_strlit("client");
    assert("edit"@.len() == 4 && "server"@.len() == 6 && "client"@.len() == 6);
    assert("server"@[0] != "client"@[0]);
}

/// A picture of the window that can be encoded is encoded, and any other is not.
pub proof fn window_pictures_are_encoded(image: RgbaImage, max: u32, format: Seq<char>)
    requires
        1 <= max <= 65535,
        image.width > 0 && image.height > 0,
        image.pixels@.len() == 4 * (image.width * image.height),
        16 * (image.width * image.height) <= isize::MAX,
    ensures
        window_picture(image, max, format) == Some(
            encode_spec(image.pixels@, image.width, image.height, max, format),
        ),
{
    whole_pictures_can_be_encoded(image.width, image.height, max, format);
}

/// Rounding goes to the nearest integer, and to the even one where two are equally near.
pub proof fn ties_go_to_the_even_integer(n: nat, d: nat)
    requires
        d > 0,
    ensures
        ({
            let rounded = round_half_even(n, d);
            &&& 2 * n <= 2 * (rounded * d) + d
            &&& 2 * (rounded * d) <= 2 * n + d
            &&& 2 * n == 2 * (rounded * d) + d || 2 * (rounded * d) == 2 * n + d ==> rounded % 2 == 0
        }),
{
    crate::binary64::rounding_error(n, d);
    let q = n / d;
    let r = n % d;
    let rounded = round_half_even(n, d);
    lemma_fundamental_div_mod(n as int, d as int);
    assert(n == q * d + r) by (nonlinear_arith)
        requires
            n == d * q + r,
    ;
    if rounded == q + 1 {
        assert((q + 1) * d == q * d + d) by (nonlinear_arith);
    }
}

/// The pattern of the next higher exponent stands for twice the number, the next pattern for one more
/// of the smallest parts, and the pattern of one for one.
pub proof fn patterns_stand_for_binary64_numbers(number: Real, double: Real, next: Real)
    requires
        number.pattern() < 0x7fd0_0000_0000_0000,
        number.pattern() >= 0x10_0000_0000_0000,
        double.pattern() == number.pattern() + 0x10_0000_0000_0000,
        next.pattern() == number.pattern() + 1,
        number.pattern() % 0x10_0000_0000_0000 != 0xf_ffff_ffff_ffff,
    ensures
        ({
            let (n, d) = magnitude(number);
            let (dn, dd) = magnitude(double);
            &&& dn * d == 2 * (n * dd)
            &&& magnitude(next).1 == d
            &&& number.down_shift() >= 0 ==> magnitude(next).0 == n + 1
            &&& number.pattern() == 0x3ff0_0000_0000_0000 ==> n == d
            &&& !number.negative() && !number.infinite()
        }),
{
    let hidden = 0x10_0000_0000_0000u64;
    let e = number.pattern() / hidden;
    assert(double.pattern() / hidden == e + 1 && double.pattern() % hidden == number.pattern() % hidden);
    assert(next.pattern() / hidden == e && next.pattern() % hidden == number.pattern() % hidden + 1);
    assert(1 <= e < 2045);
    assert(double.mantissa() == number.mantissa());
    assert(double.down_shift() == number.down_shift() - 1);
    let shift = number.down_shift();
    let m = number.mantissa();
    if shift >= 1 {
        lemma_pow2_adds(1, (shift - 1) as nat);
        lemma2_to64();
        let half = pow2((shift - 1) as nat);
        assert(m * (2 * half) == 2 * (m * half)) by (nonlinear_arith);
    } else if shift == 0 {
        lemma2_to64();
        assert(pow2(0) == 1 && pow2(1) == 2);
        assert((m * 2) * 1 == 2 * (m * 1)) by (nonlinear_arith);
    } else {
        lemma_pow2_adds(1, (-shift) as nat);
        lemma2_to64();
        let up = pow2((-shift) as nat);
        assert((m * (2 * up)) * 1 == 2 * ((m * up) * 1)) by (nonlinear_arith);
    }
    if number.pattern() == 0x3ff0_0000_0000_0000 {
        lemma2_to64_rest();
        assert(e == 1023);
        assert(pow2(52) == 0x10_0000_0000_0000);
    }
}

} // verus!
