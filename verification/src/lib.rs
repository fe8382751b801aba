//! Branching-tree outlines for smart-contract functions.
//!
//! A function's guard conditions are collected in execution order as branch
//! points, every branch point is turned into a pair of English labels, and the
//! labels are folded into a right-leaning decision tree that is rendered as an
//! indented outline.

pub mod analysis;
pub mod cli;
pub mod foundry;
pub mod output;
pub mod parser;
pub mod text;
pub mod tree;
