//! The attribute macros' logic: what they accept and what they generate, over the parts of
//! the annotated items that they read.
pub mod component;
pub mod param;
pub mod route;
