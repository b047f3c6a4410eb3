//! The front end of a compiler for a pure-functional, indentation-sensitive
//! language: an expression parser that builds a located syntax tree inside an
//! arena, and the bookkeeping that orders the loading, constraining and
//! solving of modules by their imports.

pub mod alike;
pub mod arena;
pub mod ast;
pub mod blankspace;
pub mod bounds;
pub mod closure;
pub mod combinators;
pub mod conditional;
pub mod def;
pub mod errors;
pub mod expr;
pub mod header;
pub mod literal;
pub mod pattern;
pub mod record;
pub mod ident;
pub mod ident_expr;
pub mod load;
pub mod load_model;
pub mod low_level;
pub mod module;
pub mod num;
pub mod region;
pub mod registry;
pub mod state;
pub mod to_pattern;
pub mod type_annotation;
pub mod when;
