//! Expansion of RFC 6570 style URI templates.
//!
//! The entry point is [`expand`]: it walks a template string once,
//! recognizes `{...}` tokens with their operator and modifiers, resolves
//! each variable name against a substitution table, and renders the bound
//! values with the operator's prefix, separator, name form and
//! percent-encoding rules.

pub mod classify;
pub mod encode;
pub mod error;
pub mod laws;
pub mod operator;
pub mod parse;
pub mod render;
pub mod text;
pub mod value;

pub use classify::is_iprivate;
pub use classify::is_surrogate;
pub use classify::is_ucschar;
pub use error::ExpansionError;
pub use parse::expand;
pub use parse::expand_impl;
pub use value::Substitutions;
pub use value::Value;
