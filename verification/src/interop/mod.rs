//! Expressions that run both on the server and in the browser: the runtime values, and the
//! lowering of the `expr!` syntax to them.
pub mod runtime;
pub mod ast;
