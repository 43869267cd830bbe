//! A small interpreter for a Lisp-family expression language.
//!
//! Source text is split into tokens, parsed into a tree of [`atom::Atom`]s
//! and evaluated against a chain of binding frames, the innermost first.
//! Numbers are 64-bit signed integers and arithmetic that leaves their range
//! fails; call forms nest to a bounded depth, so every evaluation ends.
//!
//! The module `semantics` says what evaluation means, as mathematical
//! functions; `eval` computes it; `lemmas` proves what holds of it in general.

pub mod atom;
pub mod binding;
pub mod eval;
pub mod lemmas;
pub mod parser;
pub mod primitives;
pub mod semantics;
pub mod text;
pub mod token;
pub mod tokenize;
