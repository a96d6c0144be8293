use base64::Engine;
use rbx_studio_mcp::binary64::Real;
use rbx_studio_mcp::os_capture::WindowCapture;
use rbx_studio_mcp::picture::{EncodedScreenshot, ReadReply, RgbaImage};
use rbx_studio_mcp::role::TargetRole;
use rbx_studio_mcp::screenshot::{
    after_engine, begin_capture, engine_origin, engine_screenshot, finish_screenshot_output, screenshot_file_name,
    screenshot_options, window_fallback, window_origin, window_screenshot, AfterEngine, AwaitingCapture,
    CaptureReply, CaptureViewport, EngineCapture, ScreenshotOrigin, ScreenshotStep, ScreenshotToolOutput,
};
use rbx_studio_mcp::server::RBXStudioServer;
use rbx_studio_mcp::state::AppState;
use rbx_studio_mcp::tools::{PixelRect, TakeScreenshot, ToolArgumentValues};

fn number(x: f64) -> Real {
    Real::from_bits(x.to_bits()).unwrap()
}

fn request() -> TakeScreenshot {
    TakeScreenshot {
        ui_path: Some("ShopGui.Frame".to_string()),
        isolate: Some(true),
        max_dimension: None,
        format: None,
        park_mouse: Some(false),
        save_to_file: None,
    }
}

fn viewport() -> CaptureViewport {
    CaptureViewport { w: number(800.0), h: number(600.5) }
}

fn encoded(bytes: Vec<u8>) -> EncodedScreenshot {
    EncodedScreenshot { bytes, mime: "image/png".to_string(), width: 3, height: 2 }
}

fn window() -> ScreenshotOrigin {
    window_origin("Place1 - Roblox Studio".to_string(), "no callback".to_string())
}

#[test]
fn options_of_a_request() {
    let options = screenshot_options(&request()).unwrap();
    assert_eq!(options.format, "png");
    assert_eq!(options.max_dimension, 1280);
    assert!(!options.save_to_file);
    for (asked, format) in [("png", "png"), ("jpeg", "jpeg"), ("jpg", "jpeg")] {
        let mut args = request();
        args.format = Some(asked.to_string());
        args.save_to_file = Some(true);
        let options = screenshot_options(&args).unwrap();
        assert_eq!(options.format, format);
        assert!(options.save_to_file);
    }
    for (asked, side) in [(0, 1), (1, 1), (63, 63), (64, 64), (4096, 4096), (4097, 4096), (u32::MAX, 4096)] {
        let mut args = request();
        args.max_dimension = Some(asked);
        assert_eq!(screenshot_options(&args).unwrap().max_dimension, side);
    }
    let mut args = request();
    args.format = Some("PNG".to_string());
    assert_eq!(
        screenshot_options(&args).map(|_| ()),
        Err("Invalid format 'PNG': must be png or jpeg".to_string())
    );
}

fn captured() -> AwaitingCapture {
    let server: RBXStudioServer<u8> = RBXStudioServer::new(AppState::new());
    let step = begin_capture(&request(), Ok(Some("a".to_string()))).unwrap();
    let command = step.command();
    assert!(matches!(command.args, ToolArgumentValues::GetStudioMode(_)));
    assert_eq!(command.target, TargetRole::Edit);
    assert_eq!(command.instance, Some("a".to_string()));
    step.mode_answered(&server, Ok("start_play\n".to_string()), 0).unwrap()
}

#[test]
fn a_capture_stays_in_one_window() {
    let step = captured();
    assert_eq!(step.mode, "start_play");
    let command = step.command();
    assert_eq!(command.target, TargetRole::Client);
    assert_eq!(command.instance, Some("a".to_string()));
    match command.args {
        ToolArgumentValues::TakeScreenshotCapture(args) => {
            assert_eq!(args.ui_path, Some("ShopGui.Frame".to_string()));
            assert_eq!(args.isolate, Some(true));
            assert_eq!(args.park_mouse, Some(false));
        }
        _ => panic!("no capture"),
    }
    let rect = PixelRect { x: number(1.0), y: number(2.0), w: number(3.0), h: number(4.0) };
    let reply = CaptureReply { content_id: "rbxtemp://1".to_string(), viewport: viewport(), rect: Some(rect) };
    let step = step.captured(Ok(reply), "{}").unwrap();
    let command = step.command();
    assert_eq!(command.target, TargetRole::Edit);
    assert_eq!(command.instance, Some("a".to_string()));
    match command.args {
        ToolArgumentValues::TakeScreenshotRead(args) => {
            assert_eq!(args.content_id, "rbxtemp://1");
            assert_eq!(args.viewport_w, number(800.0));
            assert_eq!(args.viewport_h, number(600.5));
            assert_eq!(args.rect.unwrap().h, number(4.0));
        }
        _ => panic!("no read"),
    }
    let read = ReadReply { width: 1, height: 1, pixels: "AAAAAA==".to_string() };
    let capture = step.pixels_read(Ok(read)).unwrap();
    assert_eq!(capture.mode, "start_play");
    assert_eq!(capture.role, TargetRole::Client);
    assert_eq!(capture.viewport.w, number(800.0));
    assert_eq!(capture.read.pixels, "AAAAAA==");
}

#[test]
fn each_step_of_a_capture_can_fail() {
    let server: RBXStudioServer<u8> = RBXStudioServer::new(AppState::new());
    assert_eq!(begin_capture(&request(), Err("none".to_string())).map(|_| ()), Err("none".to_string()));
    let step = begin_capture(&request(), Ok(None)).unwrap();
    assert_eq!(step.mode_answered(&server, Err("late".to_string()), 0).map(|_| ()), Err("late".to_string()));
    let step = captured();
    assert_eq!(step.capture_answered(Ok("{}".to_string())), Ok("{}".to_string()));
    assert_eq!(
        step.capture_answered(Err("e".to_string())),
        Err("Screenshot capture failed on the Client DataModel: e".to_string())
    );
    assert_eq!(
        step.captured(Err("eof".to_string()), "{").map(|_| ()),
        Err("Unexpected capture reply from Studio (eof): {".to_string())
    );
    let reply = CaptureReply { content_id: String::new(), viewport: viewport(), rect: None };
    let step = captured().captured(Ok(reply), "").unwrap();
    assert_eq!(step.pixels_answered(Ok("{}".to_string())), Ok("{}".to_string()));
    assert_eq!(
        step.pixels_answered(Err("e".to_string())),
        Err("Reading screenshot pixels failed: e".to_string())
    );
    assert_eq!(
        step.pixels_read(Err("eof".to_string())).map(|_| ()),
        Err("Unexpected pixel reply from Studio: eof".to_string())
    );
}

#[test]
fn origins_tell_where_a_picture_comes_from() {
    match engine_origin(viewport(), "stop".to_string(), TargetRole::Edit, &request()) {
        ScreenshotOrigin::Engine { viewport, studio_mode, captured_on, source, ui_path, isolate } => {
            assert_eq!(viewport.h, number(600.5));
            assert_eq!(studio_mode, "stop");
            assert_eq!(captured_on, "Edit");
            assert_eq!(source, "CaptureService");
            assert_eq!(ui_path, Some("ShopGui.Frame".to_string()));
            assert!(isolate);
        }
        _ => panic!("not the engine"),
    }
    match window() {
        ScreenshotOrigin::Window { source, window_title, note, engine_error } => {
            assert_eq!(source, "os_window");
            assert_eq!(window_title, "Place1 - Roblox Studio");
            assert_eq!(note, "Fallback capture of the whole Studio window (includes Studio chrome; ui_path crop and viewport coordinates do not apply).");
            assert_eq!(engine_error, "no callback");
        }
        _ => panic!("not the window"),
    }
}

#[test]
fn a_failed_capture_falls_back_to_the_window() {
    assert!(matches!(
        after_engine(Err("no callback".to_string())),
        AfterEngine::CaptureWindow { engine_error } if engine_error == "no callback"
    ));
    let reply = CaptureReply { content_id: String::new(), viewport: viewport(), rect: None };
    let read = ReadReply { width: 1, height: 1, pixels: "AAAAAA==".to_string() };
    let capture = captured().captured(Ok(reply), "").unwrap().pixels_read(Ok(read));
    assert!(matches!(after_engine(capture), AfterEngine::Encode { capture } if capture.read.width == 1));
}

#[test]
fn both_errors_are_reported() {
    assert_eq!(
        window_fallback("no callback", Err("no window".to_string())).map(|_| ()),
        Err("In-engine capture failed: no callback\nOS window capture also failed: no window".to_string())
    );
    let image = RgbaImage::from_raw(1, 1, vec![0; 4]).unwrap();
    let capture = WindowCapture { image, title: "t".to_string() };
    assert_eq!(window_fallback("e", Ok(capture)).unwrap().title, "t");
}

#[test]
fn inline_data_reads_back() {
    for length in 0..10usize {
        let bytes: Vec<u8> = (0..length).map(|i| (i * 101 + 250) as u8).collect();
        match finish_screenshot_output(encoded(bytes.clone()), window(), "png", false) {
            ScreenshotStep::Done { output: ScreenshotToolOutput::Inline { data, mime, meta } } => {
                let engine = base64::engine::general_purpose::STANDARD;
                assert_eq!(engine.decode(&data).unwrap(), bytes);
                assert_eq!(mime, "image/png");
                assert_eq!((meta.width, meta.height), (3, 2));
                assert_eq!(meta.mime, "image/png");
                assert_eq!(meta.delivery, "inline_image");
                assert_eq!(meta.path, None);
            }
            _ => panic!("not inline"),
        }
    }
    match finish_screenshot_output(encoded(vec![0xfb, 0xff, 0x00, 0x41]), window(), "png", false) {
        ScreenshotStep::Done { output: ScreenshotToolOutput::Inline { data, .. } } => {
            assert_eq!(data, "+/8AQQ==");
        }
        _ => panic!("not inline"),
    }
}

#[test]
fn files_get_a_name_of_their_own() {
    assert_eq!(
        screenshot_file_name(0x0123_4567_89ab_4cde_8f01_2345_6789_abcd, "png"),
        "screenshot-01234567-89ab-4cde-8f01-23456789abcd.png"
    );
    assert_eq!(
        screenshot_file_name(0, "jpeg"),
        "screenshot-00000000-0000-0000-0000-000000000000.jpg"
    );
    let file = match finish_screenshot_output(encoded(vec![7, 8]), window(), "jpeg", true) {
        ScreenshotStep::Save { file } => file,
        ScreenshotStep::Done { .. } => panic!("not saved"),
    };
    let id = file.file_name.strip_prefix("screenshot-").unwrap().strip_suffix(".jpg").unwrap();
    assert_eq!(uuid::Uuid::parse_str(id).unwrap().get_version_num(), 4);
    assert_eq!(file.bytes, vec![7, 8]);
    match file.saved(Ok("/tmp/x.jpg".to_string())) {
        Ok(ScreenshotToolOutput::File { meta }) => {
            assert_eq!(meta.delivery, "file");
            assert_eq!(meta.path, Some("/tmp/x.jpg".to_string()));
            assert_eq!((meta.width, meta.height), (3, 2));
            assert_eq!(meta.mime, "image/png");
            assert!(matches!(meta.origin, ScreenshotOrigin::Window { .. }));
        }
        _ => panic!("no file"),
    }
}

#[test]
fn a_file_that_cannot_be_saved_is_an_error() {
    let file = match finish_screenshot_output(encoded(vec![]), window(), "png", true) {
        ScreenshotStep::Save { file } => file,
        ScreenshotStep::Done { .. } => panic!("not saved"),
    };
    assert_eq!(file.saved(Err("disk full".to_string())).map(|_| ()), Err("disk full".to_string()));
}

fn pixels(width: u32, height: u32) -> Vec<u8> {
    (0..4 * width * height).map(|i| (i * 29 + i / 7) as u8).collect()
}

fn engine(width: u32, height: u32, raw: &[u8]) -> EngineCapture {
    let pixels = base64::engine::general_purpose::STANDARD.encode(raw);
    EngineCapture {
        read: ReadReply { width, height, pixels },
        mode: "start_play".to_string(),
        role: TargetRole::Client,
        viewport: viewport(),
    }
}

#[test]
fn a_capture_inside_the_engine_becomes_the_requested_screenshot() {
    let mut args = request();
    args.max_dimension = Some(20);
    match engine_screenshot(&args, engine(40, 30, &pixels(40, 30))) {
        Some(Ok(ScreenshotStep::Done { output: ScreenshotToolOutput::Inline { data, mime, meta } })) => {
            let file = base64::engine::general_purpose::STANDARD.decode(&data).unwrap();
            let shown = image::load_from_memory(&file).unwrap().to_rgba8();
            let source = image::RgbaImage::from_raw(40, 30, pixels(40, 30)).unwrap();
            let filter = image::imageops::FilterType::Triangle;
            assert_eq!(shown, image::imageops::resize(&source, 20, 15, filter));
            assert_eq!(mime, "image/png");
            assert_eq!((meta.width, meta.height), (20, 15));
            match meta.origin {
                ScreenshotOrigin::Engine { studio_mode, captured_on, ui_path, .. } => {
                    assert_eq!(studio_mode, "start_play");
                    assert_eq!(captured_on, "Client");
                    assert_eq!(ui_path, Some("ShopGui.Frame".to_string()));
                }
                _ => panic!("not the engine"),
            }
        }
        _ => panic!("not inline"),
    }
    args.format = Some("jpg".to_string());
    args.save_to_file = Some(true);
    match engine_screenshot(&args, engine(4, 3, &pixels(4, 3))) {
        Some(Ok(ScreenshotStep::Save { file })) => {
            assert!(file.file_name.ends_with(".jpg"));
            assert_eq!(file.mime, "image/jpeg");
            assert_eq!((file.width, file.height), (4, 3));
            assert_eq!(file.bytes[..2], [0xff, 0xd8]);
        }
        _ => panic!("not saved"),
    }
}

#[test]
fn a_capture_inside_the_engine_can_be_refused() {
    let mut args = request();
    assert_eq!(
        engine_screenshot(&args, engine(4, 3, &[0; 47])).unwrap().map(|_| ()),
        Err("Pixel data does not match reported size 4x3".to_string())
    );
    // Bytes follow the last pixel, which a PNG file does not take.
    assert!(engine_screenshot(&args, engine(4, 3, &[0; 49])).is_none());
    let message = engine_screenshot(&args, engine(0, 3, &[])).unwrap().unwrap_err();
    assert!(message.starts_with("PNG encoding failed: "), "{message}");
    args.format = Some("gif".to_string());
    assert_eq!(
        engine_screenshot(&args, engine(4, 3, &pixels(4, 3))).unwrap().map(|_| ()),
        Err("Invalid format 'gif': must be png or jpeg".to_string())
    );
}

fn window_picture(width: u32, height: u32) -> WindowCapture {
    let image = RgbaImage::from_raw(width, height, pixels(width, height)).unwrap();
    WindowCapture { image, title: "Place1 - Roblox Studio".to_string() }
}

#[test]
fn a_capture_of_the_window_becomes_the_requested_screenshot() {
    let mut args = request();
    match window_screenshot(&args, window_picture(9, 8), "no callback".to_string()) {
        Some(Ok(ScreenshotStep::Done { output: ScreenshotToolOutput::Inline { data, meta, .. } })) => {
            let file = base64::engine::general_purpose::STANDARD.decode(&data).unwrap();
            assert_eq!(image::load_from_memory(&file).unwrap().to_rgba8().into_raw(), pixels(9, 8));
            match meta.origin {
                ScreenshotOrigin::Window { window_title, engine_error, .. } => {
                    assert_eq!(window_title, "Place1 - Roblox Studio");
                    assert_eq!(engine_error, "no callback");
                }
                _ => panic!("not the window"),
            }
        }
        _ => panic!("not inline"),
    }
    args.format = Some("jpeg".to_string());
    args.max_dimension = Some(3);
    match window_screenshot(&args, window_picture(9, 6), String::new()) {
        Some(Ok(ScreenshotStep::Done { output: ScreenshotToolOutput::Inline { mime, meta, .. } })) => {
            assert_eq!(mime, "image/jpeg");
            assert_eq!((meta.width, meta.height), (3, 2));
        }
        _ => panic!("not inline"),
    }
    args.format = Some("gif".to_string());
    assert_eq!(
        window_screenshot(&args, window_picture(9, 6), String::new()).unwrap().map(|_| ()),
        Err("Invalid format 'gif': must be png or jpeg".to_string())
    );
    let mut extra = window_picture(9, 6);
    extra.image.pixels.push(0);
    assert!(window_screenshot(&request(), extra, String::new()).is_none());
}
