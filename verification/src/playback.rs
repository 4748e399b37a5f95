//! Stepping through the frames of a scene while it may still be growing.

use vstd::prelude::*;

verus! {

/// What a presentation does after a timer has fired.
#[derive(Clone, Copy, Debug, PartialEq, Eq, Structural)]
pub enum Beat {
    /// Show the next frame and ask for the timer again.
    Advance,
    /// The last frame so far is shown and more may come: ask for the timer
    /// again and show nothing new.
    Wait,
    /// The last frame of the finished scene is shown: stop the timer.
    Stop,
}

/// The frame shown after a timer has fired, and what to do: go on to the next
/// frame while there is one; otherwise wait while the scene is not finished,
/// and stop once it is.
pub open spec fn after_timer(frame: usize, frames: usize, finished: bool) -> (usize, Beat) {
    if frame + 1 < frames {
        ((frame + 1) as usize, Beat::Advance)
    } else if !finished {
        (frame, Beat::Wait)
    } else {
        (frame, Beat::Stop)
    }
}

/// Decides what a presentation does after a timer has fired.
pub fn on_timer(frame: usize, frames: usize, finished: bool) -> (r: (usize, Beat))
    ensures
        r == after_timer(frame, frames, finished),
{
    if frame < frames && frame + 1 < frames {
        (frame + 1, Beat::Advance)
    } else if !finished {
        (frame, Beat::Wait)
    } else {
        (frame, Beat::Stop)
    }
}

/// The frame after a step forward: the next one where there is one.
pub fn step_forward(frame: usize, frames: usize) -> (next: usize)
    ensures
        next == if frame + 1 < frames {
            frame + 1
        } else {
            frame as int
        },
{
    if frame < frames && frame + 1 < frames {
        frame + 1
    } else {
        frame
    }
}

/// The frame after a step back: the one before where there is one.
pub fn step_back(frame: usize) -> (previous: usize)
    ensures
        previous == if frame > 0 {
            frame - 1
        } else {
            0
        },
{
    if frame > 0 {
        frame - 1
    } else {
        0
    }
}

/// The frame to show when `frame` was asked for: the frame itself where it
/// exists, else the last one, or none where there is no frame at all.
pub fn clamp(frame: usize, frames: usize) -> (shown: Option<usize>)
    ensures
        shown == if frames == 0 {
            None::<usize>
        } else if frame < frames {
            Some(frame)
        } else {
            Some((frames - 1) as usize)
        },
{
    if frames == 0 {
        None
    } else if frame < frames {
        Some(frame)
    } else {
        Some(frames - 1)
    }
}

} // verus!
