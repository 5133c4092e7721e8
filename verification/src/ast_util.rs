//! Helpers that work directly on the syntax tree.

pub mod extract_static_token;
pub mod scopes;
pub mod visit;
