//! OS-level control of the Roblox Studio window.
//!
//! Studio pauses rendering while its window is minimized or fully covered, which makes the engine
//! silently drop virtual input and breaks screenshots. Restoring the window from inside the engine
//! is impossible, so the server does it at the OS level: a tool exposes it explicitly, and command
//! execution retries once after an automatic restore when the plugin reports that Studio is not
//! rendering.

use crate::text::{
    contains, contains_text, join, join_spec, lowercase, str_view, texts, to_lowercase,
    trim_end_matches, trim_end_matches_spec,
};
use vstd::prelude::*;

verus! {

/// What is known of one open Studio window.
#[derive(Debug)]
pub struct StudioWindowInfo {
    pub title: String,
    pub minimized: bool,
    pub foreground: bool,
}

/// What window control answers where the operating system's windows cannot be reached.
pub open spec fn unsupported_text() -> Seq<char> {
    "Window control is only implemented on Windows in this build; bring the Roblox Studio window to the front manually."@
}

fn unsupported() -> (message: String)
    ensures
        message@ == unsupported_text(),
{
    "Window control is only implemented on Windows in this build; bring the Roblox Studio window to the front manually.".to_owned()
}

/// Lists the Studio windows where the operating system offers no window control: it always fails.
pub fn studio_windows() -> (windows: Result<Vec<StudioWindowInfo>, String>)
    ensures
        windows matches Err(message) && message@ == unsupported_text(),
{
    Err(unsupported())
}

/// Restores a Studio window where the operating system offers no window control: it always fails.
pub fn restore_studio_window(_hint: Option<&str>) -> (title: Result<String, String>)
    ensures
        title matches Err(message) && message@ == unsupported_text(),
{
    Err(unsupported())
}

/// What is done to a window to bring it back into view.
#[derive(Clone, Copy, Debug, PartialEq, Eq, Structural)]
pub enum RestoreAction {
    /// A minimized window is shown again.
    Show,
    /// The window is brought to the front.
    Raise,
    /// The operating system refuses to let a background process bring a window to the front, unless
    /// a key was just pressed: one is tapped, and the window is brought to the front once more.
    RaiseAgain,
}

/// What is done next to a window: a minimized one is shown first, every one is brought to the front,
/// and once more where it is still not there.
pub open spec fn next_restore_spec(
    done: Option<RestoreAction>,
    minimized: bool,
    in_front: bool,
) -> Option<RestoreAction> {
    match done {
        None => Some(
            if minimized {
                RestoreAction::Show
            } else {
                RestoreAction::Raise
            },
        ),
        Some(RestoreAction::Show) => Some(RestoreAction::Raise),
        Some(RestoreAction::Raise) => if in_front {
            None
        } else {
            Some(RestoreAction::RaiseAgain)
        },
        Some(RestoreAction::RaiseAgain) => None,
    }
}

/// Decides what is done next to a window, after the last action: at first by whether the window is
/// minimized, in the end by whether it has come to the front.
pub fn next_restore_action(done: Option<RestoreAction>, minimized: bool, in_front: bool) -> (next: Option<
    RestoreAction,
>)
    ensures
        next == next_restore_spec(done, minimized, in_front),
{
    match done {
        None => Some(
            if minimized {
                RestoreAction::Show
            } else {
                RestoreAction::Raise
            },
        ),
        Some(RestoreAction::Show) => Some(RestoreAction::Raise),
        Some(RestoreAction::Raise) => if in_front {
            None
        } else {
            Some(RestoreAction::RaiseAgain)
        },
        Some(RestoreAction::RaiseAgain) => None,
    }
}

/// What is left to do after an action: `minimized` holds at the start, and `in_front` after the
/// window was brought to the front for the first time.
pub open spec fn restore_run(done: Option<RestoreAction>, minimized: bool, in_front: bool) -> Seq<
    RestoreAction,
>
    decreases
            match done {
                None => 3int,
                Some(RestoreAction::Show) => 2,
                Some(RestoreAction::Raise) => 1,
                Some(RestoreAction::RaiseAgain) => 0,
            },
{
    match next_restore_spec(done, minimized, in_front) {
        None => Seq::empty(),
        Some(next) => seq![next] + restore_run(Some(next), minimized, in_front),
    }
}

/// Restoring a window really brings it to the front: it is shown exactly where it was minimized, then
/// raised, and raised again, as the last thing, exactly where the first try did not bring it to the
/// front.
pub proof fn restoring_brings_to_the_front(minimized: bool, in_front: bool)
    ensures
        ({
            let shown = if minimized {
                seq![RestoreAction::Show]
            } else {
                Seq::empty()
            };
            let again = if in_front {
                Seq::empty()
            } else {
                seq![RestoreAction::RaiseAgain]
            };
            restore_run(None, minimized, in_front) == shown + seq![RestoreAction::Raise] + again
        }),
{
    reveal_with_fuel(restore_run, 4);
    let shown = if minimized {
        seq![RestoreAction::Show]
    } else {
        Seq::empty()
    };
    let again = if in_front {
        Seq::empty()
    } else {
        seq![RestoreAction::RaiseAgain]
    };
    assert(restore_run(Some(RestoreAction::Raise), minimized, in_front) =~= again);
    assert(restore_run(None, minimized, in_front) =~= shown + seq![RestoreAction::Raise] + again);
}

/// Whether a window's title says that it is a Studio window.
pub open spec fn studio_title(title: Seq<char>) -> bool {
    contains_text(title, "Roblox Studio"@)
}

/// Whether a window's title says that it is a Studio window.
pub fn is_studio_title(title: &str) -> (yes: bool)
    ensures
        yes == studio_title(title@),
{
    contains(title, "Roblox Studio")
}

/// An open window as the operating system lists it: its handle, its title, whether it is visible
/// and whether it is minimized.
#[derive(Debug)]
pub struct ListedWindow {
    pub handle: i64,
    pub title: String,
    pub visible: bool,
    pub minimized: bool,
}

/// Whether a listed window is a Studio window that counts as open.
pub open spec fn open_studio_window(window: ListedWindow) -> bool {
    window.visible && studio_title(window.title@)
}

/// The windows of a list that are open Studio windows, in the order of the list.
pub fn keep_studio_windows(listed: Vec<ListedWindow>) -> (windows: Vec<ListedWindow>)
    ensures
        windows@ == listed@.filter(|w: ListedWindow| open_studio_window(w)),
{
    let mut rest = listed;
    let mut windows: Vec<ListedWindow> = Vec::new();
    let ghost pred = |w: ListedWindow| open_studio_window(w);
    let ghost mut done: int = 0;
    let ghost all = listed@;
    proof {
        assert(all.skip(0) == all);
        assert(all.take(0).filter(pred) == Seq::<ListedWindow>::empty()) by {
            reveal(Seq::filter);
        }
    }
    while rest.len() > 0
        invariant
            pred == (|w: ListedWindow| open_studio_window(w)),
            0 <= done <= all.len(),
            rest@ == all.skip(done),
            windows@ == all.take(done).filter(pred),
        decreases rest.len(),
    {
        let window = rest.remove(0);
        proof {
            reveal(Seq::filter);
            assert(window == all[done]);
            assert(all.take(done + 1).drop_last() == all.take(done));
            assert(all.take(done + 1).last() == window);
            assert(rest@ == all.skip(done + 1));
            done = done + 1;
        }
        if window.visible && is_studio_title(window.title.as_str()) {
            windows.push(window);
        }
    }
    proof {
        assert(all.take(done) == all);
    }
    windows
}

/// What is reported of a Studio window when the window in front has the handle `foreground`.
pub open spec fn describes(info: StudioWindowInfo, window: ListedWindow, foreground: i64) -> bool {
    &&& info.title@ == window.title@
    &&& info.minimized == window.minimized
    &&& info.foreground == (window.handle == foreground)
}

/// Reports each Studio window, with the one in front marked.
pub fn describe_windows(windows: &Vec<ListedWindow>, foreground: i64) -> (infos: Vec<StudioWindowInfo>)
    ensures
        infos@.len() == windows@.len(),
        forall|i: int| 0 <= i < windows@.len() ==> describes(#[trigger] infos@[i], windows@[i], foreground),
{
    let mut infos: Vec<StudioWindowInfo> = Vec::new();
    let mut i: usize = 0;
    while i < windows.len()
        invariant
            i <= windows.len(),
            infos@.len() == i,
            forall|k: int| 0 <= k < i ==> describes(#[trigger] infos@[k], windows@[k], foreground),
        decreases windows.len() - i,
    {
        infos.push(
            StudioWindowInfo {
                title: windows[i].title.clone(),
                minimized: windows[i].minimized,
                foreground: windows[i].handle == foreground,
            },
        );
        i = i + 1;
    }
    infos
}

/// A hint without the extension that a file-based place carries and its window title does not.
pub open spec fn stem_spec(hint: Seq<char>) -> Seq<char> {
    trim_end_matches_spec(trim_end_matches_spec(hint, ".rbxlx"@), ".rbxl"@)
}

/// Whether a window title in lower case matches a hint in lower case: it contains the hint, or the
/// hint's stem where that is not empty.
pub open spec fn lowered_title_matches(title: Seq<char>, hint: Seq<char>) -> bool {
    let stem = stem_spec(hint);
    ||| contains_text(title, hint)
    ||| stem.len() > 0 && contains_text(title, stem)
}

/// Whether a window title matches a hint, without regard to case.
pub open spec fn title_matches(title: Seq<char>, hint: Seq<char>) -> bool {
    lowered_title_matches(lowercase(title), lowercase(hint))
}

/// The first window that matches a hint is at this position.
pub open spec fn first_match(titles: Seq<Seq<char>>, hint: Seq<char>, at: int) -> bool {
    &&& 0 <= at < titles.len()
    &&& title_matches(titles[at], hint)
    &&& forall|before: int| 0 <= before < at ==> !title_matches(#[trigger] titles[before], hint)
}

/// Whether some window matches a hint.
pub open spec fn any_match(titles: Seq<Seq<char>>, hint: Option<Seq<char>>) -> bool {
    hint matches Some(hint) && exists|at: int|
        0 <= at < titles.len() && title_matches(#[trigger] titles[at], hint)
}

/// What a caller is told when no window is open.
pub open spec fn no_window_text() -> Seq<char> {
    "No Roblox Studio window found (is Studio running?)"@
}

/// What a caller is told when it is not clear which of several windows is meant.
pub open spec fn several_windows_text(titles: Seq<Seq<char>>) -> Seq<char> {
    "Several Roblox Studio windows are open and none matches; pick one with studio_window action=restore title=<substring>. Open windows: "@
        + join_spec(titles, " | "@)
}

/// Whether a window title in lower case matches a hint in lower case.
pub fn matches_hint(title: &str, hint: &str) -> (yes: bool)
    ensures
        yes == lowered_title_matches(title@, hint@),
{
    proof {
        reveal_strlit(".rbxlx");
        reveal_strlit(".rbxl");
    }
    let stem = trim_end_matches(trim_end_matches(hint, ".rbxlx"), ".rbxl");
    contains(title, hint) || (!stem.is_empty() && contains(title, stem))
}

fn find_match(windows: &Vec<(i64, String)>, hint: &str) -> (found: Option<usize>)
    ensures
        match found {
            Some(at) => first_match(window_titles(windows@), hint@, at as int),
            None => !any_match(window_titles(windows@), Some(hint@)),
        },
{
    let lowered = to_lowercase(hint);
    let ghost titles = window_titles(windows@);
    let mut i: usize = 0;
    while i < windows.len()
        invariant
            titles == window_titles(windows@),
            lowered@ == lowercase(hint@),
            i <= windows.len(),
            forall|k: int| 0 <= k < i ==> !title_matches(#[trigger] titles[k], hint@),
        decreases windows.len() - i,
    {
        let title = to_lowercase(windows[i].1.as_str());
        proof {
            assert(titles[i as int] == windows@[i as int].1@);
        }
        if matches_hint(title.as_str(), lowered.as_str()) {
            return Some(i);
        }
        i = i + 1;
    }
    None
}

/// The titles of a list of windows.
pub open spec fn window_titles(windows: Seq<(i64, String)>) -> Seq<Seq<char>> {
    windows.map_values(|w: (i64, String)| w.1@)
}

/// Takes the window that was found, or else the only one.
pub fn pick_found(windows: &Vec<(i64, String)>, found: Option<usize>) -> (picked: Result<(i64, String), String>)
    requires
        found matches Some(at) ==> at < windows@.len(),
    ensures
        ({
            let at = match found {
                Some(at) => at as int,
                None => 0,
            };
            if found is Some || windows@.len() == 1 {
                picked matches Ok((handle, title)) && handle == windows@[at].0 && title@ == windows@[at].1@
            } else {
                picked matches Err(message) && message@ == if windows@.len() == 0 {
                    no_window_text()
                } else {
                    several_windows_text(window_titles(windows@))
                }
            }
        }),
{
    if let Some(at) = found {
        return Ok((windows[at].0, windows[at].1.clone()));
    }
    if windows.len() == 0 {
        return Err("No Roblox Studio window found (is Studio running?)".to_owned());
    }
    if windows.len() == 1 {
        return Ok((windows[0].0, windows[0].1.clone()));
    }
    let ghost titles = window_titles(windows@);
    let mut names: Vec<String> = Vec::new();
    let mut i: usize = 0;
    while i < windows.len()
        invariant
            titles == window_titles(windows@),
            i <= windows.len(),
            texts(names@) == titles.take(i as int),
        decreases windows.len() - i,
    {
        let ghost before = names@;
        names.push(windows[i].1.clone());
        proof {
            assert(texts(names@) =~= texts(before).push(titles[i as int]));
            assert(titles.take(i + 1) =~= titles.take(i as int).push(titles[i as int]));
        }
        i = i + 1;
    }
    proof {
        assert(titles.take(windows.len() as int) == titles);
    }
    let mut message = "Several Roblox Studio windows are open and none matches; pick one with studio_window action=restore title=<substring>. Open windows: ".to_owned();
    message.append(join(&names, " | ").as_str());
    Err(message)
}

/// Picks the window a hint refers to: the first that matches the hint, or else the only one.
/// Hints are instance names, which for file-based places carry an extension the window title does
/// not.
pub fn pick(windows: &Vec<(i64, String)>, hint: Option<&str>) -> (picked: Result<(i64, String), String>)
    ensures
        ({
            let titles = window_titles(windows@);
            match picked {
                Ok((handle, title)) => exists|at: int|
                    {
                        &&& 0 <= at < windows@.len()
                        &&& handle == (#[trigger] windows@[at]).0
                        &&& title@ == windows@[at].1@
                        &&& if any_match(titles, str_view(hint)) {
                            first_match(titles, hint->0@, at)
                        } else {
                            windows@.len() == 1
                        }
                    },
                Err(message) => {
                    &&& !any_match(titles, str_view(hint))
                    &&& windows@.len() != 1
                    &&& message@ == if windows@.len() == 0 {
                        no_window_text()
                    } else {
                        several_windows_text(titles)
                    }
                },
            }
        }),
{
    let ghost titles = window_titles(windows@);
    let found = match hint {
        Some(hint) => find_match(windows, hint),
        None => None,
    };
    proof {
        if let Some(at) = found {
            assert(title_matches(titles[at as int], hint->0@));
            assert(windows@[at as int].1@ == titles[at as int]);
        }
    }
    pick_found(windows, found)
}

} // verus!
