//! Verified building blocks of a compiler for an embedded scripting language:
//! the lexical scope stack used during compile-time evaluation, and the
//! description of the built-in `std::cmp` module.

pub mod span;
pub mod shared;
pub mod module;
pub mod modules;
