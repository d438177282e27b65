//! An AST and pretty-printing library for emitting C source text.
//!
//! The crate models C types, expressions and declarations as nodes in an
//! arena owned by a [`ModuleCtx`], prints declarators with C's
//! "declaration mirrors use" precedence rules, and renders documents
//! through a deterministic box-and-break layout engine.

pub mod ctx;
pub mod decl;
pub mod expr;
pub mod harness;
pub mod num;
pub mod pretty;
pub mod ty;
