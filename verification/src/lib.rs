//! Topcoat: a file-routed web framework core.
#![allow(unused_imports)]

use vstd::prelude::*;

pub mod text;
pub mod router;
pub mod asset;
pub mod view;
pub mod runtime;
pub mod interop;
pub mod cli;
pub mod macros;
pub mod dev;

verus! {
}
