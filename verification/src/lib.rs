//! Front end of the SimplicityHL compiler.
//!
//! The crate takes parsed source files to a type-checked program:
//!
//! - [`resolution`] maps `use` paths to files, inside the packages that own them.
//! - [`driver`] collects the files of a project, orders them and flattens them into one program.
//! - [`order_check`] checks that functions are defined before they are called.
//! - [`ast`] resolves names and checks types.
//! - [`error`] holds the errors of all stages and renders them.
//!
//! Every function states what it returns, and Verus proves it.

pub mod list;
pub mod text;
pub mod name;
pub mod name_map;
pub mod parse;
pub mod types;
pub mod structure;
pub mod path;
pub mod error;
pub mod pattern;
pub mod source;
pub mod value;
pub mod debug;
pub mod jet;
pub mod ast;
pub mod witness;
pub mod position;
pub mod display;
pub mod order;
pub mod driver;
pub mod order_check;
pub mod disk;
pub mod lexer;
pub mod resolution;
