//! A conflict-free replicated document of vector graphics.
//!
//! Replicas edit an ordered forest of circles, rectangles, paths and groups
//! without a coordinator and converge when they exchange their state. The
//! state is flat: an update-wins map from node name to a record of
//! last-writer-wins registers, beside a log of moves ordered by time. The
//! nested document is rebuilt from it on demand.
//!
//! Every type has a mathematical model, its view, and every function says in
//! its contract what it does to the models. What the library relies on
//! without proof is little and is marked: the clock, the source of random
//! letters, and the crate that makes positions between positions.
#![allow(nonstandard_style)]

pub mod crdt;
pub mod element;
pub mod prelude;
pub mod utility;
