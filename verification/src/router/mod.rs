//! Routing: file-system derived route paths, URL paths and patterns, route tables.
use vstd::prelude::*;

pub mod segment;
pub mod path;
pub mod pattern;
pub mod router;
pub mod file_router;
pub mod static_routes;
pub mod dynamic_routes;
pub mod fallback;

verus! {
} // verus!
