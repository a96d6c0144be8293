use rbx_studio_mcp::os_capture::{choose_window, window_capture, CandidateWindow};
use rbx_studio_mcp::os_window::{
    describe_windows, is_studio_title, keep_studio_windows, matches_hint, next_restore_action, pick,
    pick_found, restore_studio_window, studio_windows, ListedWindow, RestoreAction,
};

const UNSUPPORTED: &str = "Window control is only implemented on Windows in this build; bring the Roblox Studio window to the front manually.";

fn listed(handle: i64, title: &str, visible: bool, minimized: bool) -> ListedWindow {
    ListedWindow { handle, title: title.to_string(), visible, minimized }
}

fn candidate(title: &str, minimized: bool, focused: bool, width: u32, height: u32) -> CandidateWindow {
    CandidateWindow { title: title.to_string(), minimized, focused, width, height }
}

fn open(titles: &[&str]) -> Vec<(i64, String)> {
    titles.iter().enumerate().map(|(i, t)| (i as i64 + 1, t.to_string())).collect()
}

#[test]
fn no_window_control_without_windows() {
    assert_eq!(studio_windows().map(|_| ()).unwrap_err(), UNSUPPORTED);
    assert_eq!(restore_studio_window(Some("Place1")).unwrap_err(), UNSUPPORTED);
    assert_eq!(restore_studio_window(None).unwrap_err(), UNSUPPORTED);
}

#[test]
fn studio_windows_are_kept_in_order() {
    let all = vec![
        listed(1, "Place1 - Roblox Studio", true, false),
        listed(2, "Editor", true, false),
        listed(3, "Place2 - Roblox Studio", false, false),
        listed(4, "Place3 - Roblox Studio", true, true),
    ];
    let kept = keep_studio_windows(all);
    let handles: Vec<i64> = kept.iter().map(|w| w.handle).collect();
    assert_eq!(handles, vec![1, 4]);
    let infos = describe_windows(&kept, 4);
    assert_eq!(infos[0].title, "Place1 - Roblox Studio");
    assert!(!infos[0].minimized && !infos[0].foreground);
    assert!(infos[1].minimized && infos[1].foreground);
    assert!(is_studio_title("x Roblox Studio y"));
    assert!(!is_studio_title("roblox studio"));
}

#[test]
fn the_first_matching_window_is_picked() {
    let windows = open(&["Lobby - Roblox Studio", "Arena - Roblox Studio", "ARENA 2 - Roblox Studio"]);
    assert_eq!(pick(&windows, Some("arena")), Ok((2, "Arena - Roblox Studio".to_string())));
    assert_eq!(pick(&windows, Some("Arena 2")), Ok((3, "ARENA 2 - Roblox Studio".to_string())));
}

#[test]
fn file_extensions_do_not_hinder_a_match() {
    let windows = open(&["Other - Roblox Studio", "MyPlace - Roblox Studio"]);
    assert_eq!(pick(&windows, Some("MyPlace.rbxl")).unwrap().0, 2);
    assert_eq!(pick(&windows, Some("MyPlace.rbxlx")).unwrap().0, 2);
    assert_eq!(pick(&windows, Some("myplace.RBXL")).unwrap().0, 2);
    // Nothing is left of this hint, so it does not match every window.
    assert!(pick(&windows, Some(".rbxl")).is_err());
}

#[test]
fn the_only_window_needs_no_match() {
    let windows = open(&["Lobby - Roblox Studio"]);
    assert_eq!(pick(&windows, Some("nowhere")).unwrap().0, 1);
    assert_eq!(pick(&windows, None).unwrap().0, 1);
}

#[test]
fn no_or_unclear_windows_are_an_error() {
    assert_eq!(
        pick(&vec![], Some("x")).unwrap_err(),
        "No Roblox Studio window found (is Studio running?)"
    );
    let windows = open(&["A - Roblox Studio", "B - Roblox Studio"]);
    assert_eq!(
        pick(&windows, None).unwrap_err(),
        "Several Roblox Studio windows are open and none matches; pick one with studio_window action=restore title=<substring>. Open windows: A - Roblox Studio | B - Roblox Studio"
    );
    assert!(pick(&windows, Some("C")).is_err());
}

#[test]
fn hints_match_beyond_ascii() {
    let windows = open(&["other", "\u{c9}COLE - Roblox Studio"]);
    assert_eq!(pick(&windows, Some("\u{e9}cole")).unwrap().0, 2);
}

#[test]
fn the_largest_window_is_captured() {
    let windows = vec![
        candidate("Editor", false, true, 9000, 9000),
        candidate("A - Roblox Studio", false, false, 100, 100),
        candidate("B - Roblox Studio", false, false, 200, 100),
        candidate("C - Roblox Studio", false, false, 100, 200),
        candidate("D - Roblox Studio", true, false, 5000, 5000),
    ];
    assert_eq!(choose_window(&Ok(windows)), Ok(2));
}

#[test]
fn the_focused_window_is_captured_first() {
    let windows = vec![
        candidate("A - Roblox Studio", false, false, u32::MAX, u32::MAX),
        candidate("B - Roblox Studio", false, true, 1, 1),
        candidate("C - Roblox Studio", false, true, 100, 100),
    ];
    assert_eq!(choose_window(&Ok(windows)), Ok(1));
    let windows = vec![candidate("A - Roblox Studio", false, false, 0, 0)];
    assert_eq!(choose_window(&Ok(windows)), Ok(0));
}

#[test]
fn capture_errors() {
    assert_eq!(
        choose_window(&Err("denied".to_string())),
        Err("Could not enumerate windows: denied".to_string())
    );
    let windows = vec![candidate("A - Roblox Studio", true, true, 10, 10)];
    assert_eq!(
        choose_window(&Ok(windows)),
        Err("No visible Roblox Studio window found (it may be minimized or closed)".to_string())
    );
    assert_eq!(
        window_capture("t".to_string(), Err("gone".to_string())).map(|_| ()),
        Err("Window capture failed: gone".to_string())
    );
    assert_eq!(
        window_capture("t".to_string(), Ok((2, 2, vec![0; 15]))).map(|_| ()),
        Err("Captured window image had unexpected buffer size".to_string())
    );
    let capture = window_capture("t".to_string(), Ok((2, 2, vec![9; 16]))).unwrap();
    assert_eq!(capture.title, "t");
    assert_eq!((capture.image.width, capture.image.height), (2, 2));
    assert_eq!(capture.image.pixels, vec![9; 16]);
}

#[test]
fn hints_match_with_or_without_their_extension() {
    assert!(matches_hint("arena - roblox studio", "arena"));
    assert!(matches_hint("arena - roblox studio", "arena.rbxl"));
    assert!(matches_hint("arena - roblox studio", "arena.rbxl.rbxlx"));
    assert!(!matches_hint("arena - roblox studio", "arena.rbxlx.rbxl.x"));
    assert!(!matches_hint("arena - roblox studio", ".rbxlx"));
    assert!(matches_hint("arena.rbxl - roblox studio", ".rbxl"));
}

#[test]
fn the_found_window_or_the_only_one_is_taken() {
    let windows = open(&["A", "B"]);
    assert_eq!(pick_found(&windows, Some(1)), Ok((2, "B".to_string())));
    assert!(pick_found(&windows, None).unwrap_err().ends_with("Open windows: A | B"));
    assert_eq!(pick_found(&open(&["A"]), None), Ok((1, "A".to_string())));
}

fn restore(minimized: bool, in_front: bool) -> Vec<RestoreAction> {
    let mut actions: Vec<RestoreAction> = Vec::new();
    while let Some(next) = next_restore_action(actions.last().copied(), minimized, in_front) {
        actions.push(next);
    }
    actions
}

#[test]
fn restoring_brings_a_window_to_the_front() {
    let (show, raise, again) = (RestoreAction::Show, RestoreAction::Raise, RestoreAction::RaiseAgain);
    assert_eq!(restore(false, true), vec![raise]);
    assert_eq!(restore(false, false), vec![raise, again]);
    assert_eq!(restore(true, true), vec![show, raise]);
    assert_eq!(restore(true, false), vec![show, raise, again]);
}
