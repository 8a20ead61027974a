//! Decomposes a textual function declaration into its parts and reassembles
//! it around a new body.

pub mod decl;
pub mod pattern;
pub mod text;

pub use decl::{DeclError, DeclView, FunctionDecl};
