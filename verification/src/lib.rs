//! A small expression evaluator with closures, a self-reference primitive,
//! conditionals and host-provided builtin functions, and a driver that evaluates
//! a program pass after pass until what it emits no longer changes.

pub mod syntax;
pub mod context;
pub mod host;
pub mod interpret;
pub mod driver;
pub mod laws;

pub use crate::context::Context;
pub use crate::driver::compile;
pub use crate::driver::DEFAULT_MAX_ITERATIONS;
pub use crate::driver::initialize;
pub use crate::driver::same_log;
pub use crate::host::call_builtin;
pub use crate::host::State;
pub use crate::interpret::call_closure;
pub use crate::interpret::interpret;
pub use crate::syntax::Ast;
pub use crate::syntax::Builtin;
pub use crate::syntax::Error;
pub use crate::syntax::Value;
pub use crate::syntax::Variable;
