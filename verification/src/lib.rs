//! A constraint-based layout and compositing core for a tree of terminal-UI
//! widgets. A frame is produced in three passes over the widget tree: a layout
//! pass propagates size constraints top-down and computes each node's size
//! bottom-up, a position pass assigns absolute screen coordinates top-down,
//! and a paint pass draws every node onto a shared surface in insertion
//! order, so that later siblings composite over earlier ones.

pub mod constraints;
pub mod geometry;
pub mod paint;
pub mod position;
pub mod surface;
pub mod tree;
pub mod widgets;
