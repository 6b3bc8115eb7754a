//! Expansion of StarkNet contract modules: a contract module written by the
//! user is rewritten into the canonical layout that the compiler expects
//! (storage expansion, ABI trait, dispatcher submodules), with diagnostics
//! for malformed contracts.
//!
//! The syntax tree is held as plain data (`ast`); the pieces of code that
//! other generators produce (entry-point wrappers, event lowering, storage
//! expansion, the class-hash digest) are handed in as values.

pub mod ast;
pub mod text;
pub mod uses;
pub mod entry_point;
pub mod contract;
