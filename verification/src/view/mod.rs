//! Rendered views: HTML escaping, the formatter views are written into, and rendering.
use vstd::prelude::*;

pub mod escape;
pub mod runtime;
pub mod tokens;
pub mod ast;
pub mod output;
pub mod codegen;

verus! {
} // verus!
