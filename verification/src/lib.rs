//! Static checking of a small C-like language: every expression gets a
//! type, every misuse gets an error, and a program without errors comes
//! back as a fully typed tree.
pub mod types;
pub mod span;
pub mod ast;
pub mod model;
pub mod error;
pub mod env;
pub mod rules;
pub mod annot;
pub mod partial;
pub mod bounds;
pub mod check;
pub mod program;
pub mod full;
pub mod convert;
pub mod complete;
pub mod style;
pub mod laws;
pub mod scope;
pub use program::typecheck;
pub mod typing_laws;
