//! Feature-gated source transformation: one declaration in, two mutually
//! exclusive variants out. The transformed variant is compiled when a named
//! feature is active, the untouched declaration when it is not.
//!
//! The declaration is given as a tree of plain values; reading it from
//! tokens and writing the variants back is the caller's part.

pub mod text;
pub mod syntax;
pub mod config;
pub mod tree;
pub mod block;
pub mod function;
pub mod structs;
pub mod emit;

pub use crate::emit::hijekt;
