//! A parser for modules written in the YANG data-modeling language, and a
//! locator that finds a module's file on a search path.
pub mod container;
pub mod modules;
pub mod node;
pub mod text;
pub mod types;
pub mod lexer;
pub mod range;
pub mod block;
pub mod fields;
pub mod revision;
pub mod statements;
pub mod typestmt;
pub mod assembler;
pub mod locator;
