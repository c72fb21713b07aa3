//! The native modules that come with the language.

pub mod cmp;
