//! The verified slice of the window plumbing: frame epochs, and the mapping
//! from raw platform events to driver events.
//!
//! Opening the window, pumping the platform's event loop and presenting
//! frames belong to the windowing collaborator; what is kept here is the
//! decision logic that collaborator drives: which driver event each platform
//! event becomes, and how the pointer position is tracked across events.

use vstd::prelude::*;
use crate::events::{Event, Interaction};
use crate::geometry::Point;

verus! {

/// Identifies successive frames to the rendering collaborator; wraps at
/// `u32::MAX`.
#[derive(Clone, Copy, Debug, PartialEq, Eq, Structural)]
pub struct Epoch(pub u32);

impl Epoch {
    /// Returns the current epoch and advances the counter, wrapping to zero
    /// after `u32::MAX`.
    pub fn next(&mut self) -> (r: Epoch)
        ensures
            r == *old(self),
            old(self).0 < u32::MAX ==> final(self).0 == old(self).0 + 1,
            old(self).0 == u32::MAX ==> final(self).0 == 0,
    {
        let val = self.0;
        if self.0 == u32::MAX {
            self.0 = 0;
        } else {
            self.0 = self.0 + 1;
        }
        Epoch(val)
    }
}

/// Decides when the windowing loop should generate a frame.
///
/// A frame is wanted after anything made the picture stale (a resize, or a
/// newer epoch than the one last rendered), and generation may only start
/// while no earlier frame is still being rendered. A fresh scheduler wants a
/// first frame at once.
pub struct FrameScheduler {
    pub need_render: bool,
    pub busy: bool,
}

impl FrameScheduler {
    pub fn new() -> (s: FrameScheduler)
        ensures
            s.need_render,
            !s.busy,
    {
        FrameScheduler { need_render: true, busy: false }
    }

    /// The renderer finished a frame and the buffers were swapped.
    pub fn frame_done(&mut self)
        ensures
            !final(self).busy,
            final(self).need_render == old(self).need_render,
    {
        self.busy = false;
    }

    /// Something made the picture stale: ask for a frame.
    pub fn invalidate(&mut self)
        ensures
            final(self).need_render,
            final(self).busy == old(self).busy,
    {
        self.need_render = true;
    }

    /// Whether to start generating a frame now: only when one is wanted and
    /// none is underway. Starting marks the scheduler busy and the want
    /// satisfied.
    pub fn should_render(&mut self) -> (r: bool)
        ensures
            r == (old(self).need_render && !old(self).busy),
            r ==> final(self).busy && !final(self).need_render,
            !r ==> *final(self) == *old(self),
    {
        if self.need_render && !self.busy {
            self.busy = true;
            self.need_render = false;
            true
        } else {
            false
        }
    }
}

/// A raw platform event, reduced to what the driver cares about.
#[derive(Clone, Copy, Debug, PartialEq, Eq, Structural)]
pub enum PlatformEvent {
    /// The window was closed.
    Closed,
    /// The pointer moved to the given viewport position.
    CursorMoved(Point),
    /// The primary button went down.
    LeftPressed,
    /// The primary button came up.
    LeftReleased,
    /// Anything else.
    Other,
}

/// Tracks the pointer across platform events and turns each event into the
/// driver event it stands for.
///
/// Button events carry no position of their own: they strike wherever the
/// pointer last moved, so the tracker remembers the most recent cursor
/// position and stamps it onto interactions.
pub struct PointerTracker {
    pub mouse: Point,
}

impl PointerTracker {
    pub fn new() -> (t: PointerTracker)
        ensures
            t.mouse == (Point { x: 0, y: 0 }),
    {
        PointerTracker { mouse: Point { x: 0, y: 0 } }
    }

    /// Maps one platform event to the driver event it stands for, updating
    /// the remembered pointer position on cursor moves.
    pub fn step(&mut self, e: PlatformEvent) -> (r: Event)
        ensures
            match e {
                PlatformEvent::Closed => r == Event::WindowClosed && final(self).mouse == old(
                    self,
                ).mouse,
                PlatformEvent::CursorMoved(p) => r == Event::Other && final(self).mouse == p,
                PlatformEvent::LeftPressed => r == Event::Interaction(
                    Interaction::Pressed(old(self).mouse),
                ) && final(self).mouse == old(self).mouse,
                PlatformEvent::LeftReleased => r == Event::Interaction(
                    Interaction::Released(old(self).mouse),
                ) && final(self).mouse == old(self).mouse,
                PlatformEvent::Other => r == Event::Other && final(self).mouse == old(self).mouse,
            },
    {
        match e {
            PlatformEvent::Closed => Event::WindowClosed,
            PlatformEvent::CursorMoved(p) => {
                self.mouse = p;
                Event::Other
            },
            PlatformEvent::LeftPressed => Event::Interaction(Interaction::Pressed(self.mouse)),
            PlatformEvent::LeftReleased => Event::Interaction(Interaction::Released(self.mouse)),
            PlatformEvent::Other => Event::Other,
        }
    }
}

} // verus!
