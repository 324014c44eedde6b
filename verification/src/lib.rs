//! The C backend of the Verve compiler: it lowers a typed program tree to
//! the text of a C program.
//!
//! `ast` is the tree, `shape` says which trees can be lowered,
//! `codegen::lowering` says what the lowering of each is, and
//! `codegen::c` holds the session that computes it. `codegen::laws` states
//! what follows for globals, the entry point, deferred actions, the
//! built-in calls and printing.

pub mod source;
pub mod ast;
pub mod shape;
pub mod text;
pub mod codegen;
