//! OS-level capture of the Roblox Studio window.
//!
//! Fallback for screenshots when the capture inside the engine fails (its callback may never fire,
//! and it cannot work at all while Studio is not rendering). This captures the whole Studio window
//! including its frame, so pixel coordinates do not map to viewport coordinates; callers are told in
//! the metadata.

use crate::os_window::{is_studio_title, studio_title};
use crate::picture::{holds, RgbaImage};
use vstd::prelude::*;

verus! {

/// A picture of a Studio window, and the window's title.
#[derive(Debug)]
pub struct WindowCapture {
    pub image: RgbaImage,
    pub title: String,
}

/// A window that could be captured. What the operating system does not tell is taken for an empty
/// title, a size of zero, and neither minimized nor focused.
#[derive(Debug)]
pub struct CandidateWindow {
    pub title: String,
    pub minimized: bool,
    pub focused: bool,
    pub width: u32,
    pub height: u32,
}

/// Whether a window shows Studio.
pub open spec fn shows_studio(window: CandidateWindow) -> bool {
    studio_title(window.title@) && !window.minimized
}

/// How well a window suits: the focused one best, the others by their area.
pub open spec fn score(window: CandidateWindow) -> nat {
    if window.focused {
        u64::MAX as nat
    } else {
        (window.width * window.height) as nat
    }
}

/// Whether a window is the one to capture: it shows Studio, none suits better, and of those that
/// suit equally well it is the first.
pub open spec fn is_best(windows: Seq<CandidateWindow>, at: int) -> bool {
    &&& 0 <= at < windows.len()
    &&& shows_studio(windows[at])
    &&& forall|i: int|
        0 <= i < windows.len() && shows_studio(#[trigger] windows[i]) ==> {
            &&& score(windows[i]) <= score(windows[at])
            &&& i < at ==> score(windows[i]) < score(windows[at])
        }
}

fn score_of(window: &CandidateWindow) -> (points: u64)
    ensures
        points == score(*window),
{
    if window.focused {
        return u64::MAX;
    }
    proof {
        assert(window.width * window.height <= 0xffff_ffff * 0xffff_ffff) by (nonlinear_arith)
            requires
                window.width <= 0xffff_ffff,
                window.height <= 0xffff_ffff,
        ;
    }
    window.width as u64 * window.height as u64
}

/// Picks the window to capture: the focused one, or else the largest. With several Studio windows
/// open this is a heuristic; the metadata reports which window was captured.
pub fn choose_window(listed: &Result<Vec<CandidateWindow>, String>) -> (chosen: Result<usize, String>)
    ensures
        match listed {
            Err(reason) => chosen matches Err(message) && message@ == "Could not enumerate windows: "@
                + reason@,
            Ok(windows) => match chosen {
                Ok(at) => is_best(windows@, at as int),
                Err(message) => {
                    &&& message@
                        == "No visible Roblox Studio window found (it may be minimized or closed)"@
                    &&& forall|i: int| 0 <= i < windows@.len() ==> !shows_studio(#[trigger] windows@[i])
                },
            },
        },
{
    let windows = match listed {
        Ok(windows) => windows,
        Err(reason) => {
            let mut message = "Could not enumerate windows: ".to_owned();
            message.append(reason.as_str());
            return Err(message);
        },
    };
    let mut best: Option<(u64, usize)> = None;
    let mut i: usize = 0;
    while i < windows.len()
        invariant
            i <= windows.len(),
            match best {
                Some((points, at)) => at < i && is_best(windows@.take(i as int), at as int) && points
                    == score(windows@[at as int]),
                None => forall|k: int| 0 <= k < i ==> !shows_studio(#[trigger] windows@[k]),
            },
        decreases windows.len() - i,
    {
        let window = &windows[i];
        let ghost seen = windows@.take(i as int);
        let ghost next = windows@.take(i + 1);
        proof {
            assert(forall|k: int| 0 <= k < i ==> #[trigger] next[k] == seen[k]);
            assert(next[i as int] == *window);
        }
        if is_studio_title(window.title.as_str()) && !window.minimized {
            let points: u64 = score_of(window);
            let better = match best {
                Some((most, _)) => points > most,
                None => true,
            };
            if better {
                best = Some((points, i));
            }
        }
        i = i + 1;
    }
    proof {
        assert(windows@.take(windows.len() as int) == windows@);
    }
    match best {
        Some((_, at)) => Ok(at),
        None => Err(
            "No visible Roblox Studio window found (it may be minimized or closed)".to_owned(),
        ),
    }
}

/// The capture of a window, from the size and the bytes that the operating system gave.
pub fn window_capture(title: String, captured: Result<(u32, u32, Vec<u8>), String>) -> (capture: Result<
    WindowCapture,
    String,
>)
    ensures
        match captured {
            Err(reason) => capture matches Err(message) && message@ == "Window capture failed: "@ + reason@,
            Ok((width, height, pixels)) => if holds(pixels@.len(), width, height) {
                capture == Ok::<WindowCapture, String>(
                    WindowCapture { image: RgbaImage { width, height, pixels }, title },
                )
            } else {
                capture matches Err(message) && message@
                    == "Captured window image had unexpected buffer size"@
            },
        },
{
    let (width, height, pixels) = match captured {
        Ok(parts) => parts,
        Err(reason) => {
            let mut message = "Window capture failed: ".to_owned();
            message.append(reason.as_str());
            return Err(message);
        },
    };
    match RgbaImage::from_raw(width, height, pixels) {
        Some(image) => Ok(WindowCapture { image, title }),
        None => Err("Captured window image had unexpected buffer size".to_owned()),
    }
}

} // verus!
