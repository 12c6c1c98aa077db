//! A small Lisp front end: an S-expression reader, a translation of
//! S-expressions into a surface language, and the desugaring of that surface
//! language into the core language that the interpreter runs.

pub mod desugaring;
pub mod expressions;
pub mod laws;
pub mod parser;
pub mod reader;
pub mod round_trip;
pub mod sexpr;
mod text;
