//! Flex-style attributes that the layout solver consumes.
//!
//! Each style carries a unit value: an absolute number of pixels, a
//! percentage of the parent's extent, or an `Auto` marker that leaves the
//! choice to the solver.

use vstd::prelude::*;

verus! {

/// A dimension: absolute pixels, a percentage, or solver-chosen.
#[derive(Clone, Copy, Debug, PartialEq, Eq, Structural)]
pub enum StyleUnit {
    Point(i32),
    Percent(i32),
    Auto,
}

/// The main axis along which a container lays out its children.
#[derive(Clone, Copy, Debug, PartialEq, Eq, Structural)]
pub enum FlexDirection {
    Row,
    RowReverse,
    Column,
    ColumnReverse,
}

/// Cross-axis alignment of a container's children.
#[derive(Clone, Copy, Debug, PartialEq, Eq, Structural)]
pub enum Align {
    Auto,
    FlexStart,
    Center,
    FlexEnd,
    Stretch,
}

/// Whether children wrap onto further lines.
#[derive(Clone, Copy, Debug, PartialEq, Eq, Structural)]
pub enum Wrap {
    NoWrap,
    Wrap,
    WrapReverse,
}

/// Text/layout direction handed to the solver for a layout pass.
#[derive(Clone, Copy, Debug, PartialEq, Eq, Structural)]
pub enum Direction {
    Inherit,
    LTR,
    RTL,
}

/// One style attribute of a component.
#[derive(Clone, Copy, Debug, PartialEq, Eq, Structural)]
pub enum FlexStyle {
    Width(StyleUnit),
    Height(StyleUnit),
    Padding(StyleUnit),
    Margin(StyleUnit),
    Flex(i32),
    FlexDirection(FlexDirection),
    AlignItems(Align),
    FlexWrap(Wrap),
}

} // verus!
