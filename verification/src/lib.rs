#![verifier::loop_isolation(false)]
//! A retained-mode user-interface core.
//!
//! An application describes a window's contents as a tree of [`model::Component`]s.
//! A parallel flex-layout pass assigns every component a rectangle
//! ([`layout_context::LayoutContext`]), pointer input is hit-tested against those
//! rectangles, and the struck component dispatches a typed event handler that
//! computes a new application state, from which the tree is rebuilt
//! ([`application::Application`]).

pub mod application;
pub mod components;
pub mod component_tree;
pub mod data_bag;
pub mod events;
pub mod geometry;
pub mod layout_context;
pub mod layout;
pub mod model;
pub mod styles;
pub mod window;
