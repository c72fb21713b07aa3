//! Helpers shared by the compiler passes.

pub mod text;
pub mod internal;
pub mod scope;
pub mod scopes;
pub mod scope_laws;
