//! Events handed to the driver by the windowing collaborator.

use vstd::prelude::*;
use crate::geometry::Point;

verus! {

/// The event-type token under which pointer-interaction handlers register.
pub const INTERACTION_TOKEN: u64 = 0;

/// A pointer interaction, with its position in viewport coordinates.
#[derive(Clone, Copy, Debug, PartialEq, Eq, Structural)]
pub enum Interaction {
    Pressed(Point),
    Released(Point),
}

impl Interaction {
    /// The interaction's position.
    pub open spec fn spec_point(self) -> Point {
        match self {
            Interaction::Pressed(p) => p,
            Interaction::Released(p) => p,
        }
    }

    pub fn point(&self) -> (p: Point)
        ensures
            p == self.spec_point(),
    {
        match self {
            Interaction::Pressed(p) => *p,
            Interaction::Released(p) => *p,
        }
    }
}

impl crate::model::Event for Interaction {
    open spec fn token_spec(&self) -> u64 {
        INTERACTION_TOKEN
    }

    fn type_token(&self) -> u64 {
        INTERACTION_TOKEN
    }
}

/// What the windowing collaborator reports to the driver.
#[derive(Clone, Copy, Debug, PartialEq, Eq, Structural)]
pub enum Event {
    /// The application is shutting down; the driver exits.
    ApplicationClosed,
    /// The window was closed; the driver exits.
    WindowClosed,
    /// The renderer finished a frame, which can now be swapped in.
    NotifyRenderComplete,
    /// A pointer interaction to route through hit-testing.
    Interaction(Interaction),
    /// Any other platform event; the driver ignores it.
    Other,
}

} // verus!
