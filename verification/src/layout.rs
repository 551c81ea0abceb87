//! The pluggable whole-tree layout strategy of the widget layer: a strategy
//! reads a component store and writes one rectangle per component id.

use vstd::prelude::*;
use std::collections::HashMap;
use crate::component_tree::ComponentTree;

verus! {

/// A layout strategy: determines a rectangle for components of `tree` within
/// `bounds` and records them in `result`, keyed by component id.
pub trait Layout {
    fn determine_sizes(
        &self,
        tree: &ComponentTree,
        bounds: crate::geometry::Layout,
        result: &mut HashMap<i64, crate::geometry::Layout>,
    );
}

/// A constraint-solver strategy that determines no sizes: every rectangle is
/// left to the caller's defaults, so the result map is left untouched.
pub struct CassowaryLayout;

impl CassowaryLayout {
    pub fn new() -> CassowaryLayout {
        CassowaryLayout
    }
}

impl Layout for CassowaryLayout {
    #[allow(unused_variables)]
    fn determine_sizes(
        &self,
        tree: &ComponentTree,
        bounds: crate::geometry::Layout,
        result: &mut HashMap<i64, crate::geometry::Layout>,
    ) {
    }
}

} // verus!
