//! A compiler and cooperative runtime for a visual, block-based program
//! representation: stacks of typed blocks rooted at "hat" blocks are
//! translated into imperative procedure bodies, and logical threads run
//! them under a one-poll-per-tick cooperative scheduler over a
//! stage-and-sprites data model.
//!
//! - [`value`] holds the dynamic value model with its total order;
//! - [`blocks`] the block graph the compiler consumes;
//! - [`template`] code templates with placeholder holes;
//! - [`table`] the opcode lookup table;
//! - [`compiler`] the block and stack compiler;
//! - [`hats`] the hat discovery and procedure assembly;
//! - [`gen`] the target scaffolding generation;
//! - [`sched`] the scheduler, threads and suspension primitives;
//! - [`target`] the stage, sprites, variables and lists;
//! - [`text`] plain-text substitution over generated code;
//! - [`ident`] project identifier parsing.

pub mod blocks;
pub mod compiler;
pub mod gen;
pub mod hats;
pub mod ident;
pub mod ops;
pub mod rng;
pub mod sched;
pub mod table;
pub mod target;
pub mod template;
pub mod text;
pub mod value;
