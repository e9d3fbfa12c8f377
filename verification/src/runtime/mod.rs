//! Reactive expressions for event handlers: server-side evaluation and JavaScript output.
use vstd::prelude::*;

pub mod expr;
pub mod event_handler;

verus! {
} // verus!
