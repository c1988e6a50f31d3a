//! Interactive explorer for a function's control-flow graph.
//!
//! The crate owns the logic of the explorer: the immutable graph model of a
//! function's basic blocks and edges, a deterministic layout engine that
//! assigns every block a position and routes every edge, a viewport transform
//! from graph space to screen space, a navigation state machine over blocks
//! and edges, a key-to-action input mapper, and a renderer that turns one
//! frame of state into a list of drawing commands. A thin embedding shell
//! parses documents, owns the drawing surface, and executes the drawing
//! commands; everything it delegates to here is verified.

pub mod analysis;
pub mod explorer;
pub mod graph;
pub mod input;
pub mod layout;
pub mod nav;
pub mod render;
pub mod viewport;
