//! The verified logic of the libretro core-option derive macro and of the
//! `unstable` and `context` attribute macros: the grammars of the attributes,
//! the tables the derive emits, and the decisions of the two attributes.
pub mod categories;
pub mod context;
pub mod derive;
pub mod error;
pub mod grammar;
pub mod laws;
pub mod literal;
pub mod options;
pub mod tables;
pub mod tokens;
pub mod unstable;
