//! Turns a documentation graph (an id-indexed collection of raw item records)
//! into a typed item tree, and renders that tree as declaration-like text.

pub mod json;
pub mod text;
pub mod lines;
pub mod types;
pub mod model;
pub mod graph;
pub mod subtree;
pub mod filter;
pub mod parser;
pub mod render;
pub mod write;
pub mod renderer;
pub mod laws;
pub mod sample;
pub mod input;
pub mod resolve;
