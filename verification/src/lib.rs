//! Query a Rust toolchain for its default target triple.
//!
//! The library side of a small command-line tool: given the captured
//! standard output of `rustc -vV`, decode it as UTF-8, scan for the first
//! line that begins with `host: `, and return the remainder of that line.
//! Spawning the toolchain process and printing the result are left to the
//! surrounding binary; everything here is ordinary computation on bytes
//! and text, specified and verified.

use vstd::prelude::*;

pub mod errors;
pub mod laws;
pub mod parse;
pub mod resolver;

verus! {

pub use crate::errors::Error;
pub use crate::errors::ErrorKind;
pub use crate::resolver::resolve_target;

} // verus!
