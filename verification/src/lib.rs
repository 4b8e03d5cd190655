//! Hierarchical hardware description: a design is a tree of blocks and
//! signals; a collector walks the tree once and gathers, scope by scope, what
//! each module declares; the gathered records are written as Verilog text.
//!
//! The mathematical model of the collector is in `model`, that of the text in
//! `render`; `laws` holds what is proved of both for every design.

pub mod ast;
pub mod atom;
pub mod bits;
pub mod block;
pub mod code_writer;
pub mod laws;
pub mod logic;
pub mod model;
pub mod module_defines;
pub mod named_path;
pub mod pcb;
pub mod probe;
pub mod render;
pub mod text;
pub mod verilog_gen;
pub mod widgets;
