//! The grammar of module headers and module bodies, verified.

mod arena;
pub mod ast;
pub mod blanks;
pub mod blankspace;
pub mod bodies;
pub mod collection;
pub mod combine;
pub mod forward;
pub mod grammar;
pub mod headers;
pub mod ident;
pub mod laws;
pub mod letters;
pub mod lex;
pub mod lists;
pub mod module;
pub mod names;
pub mod parts;
pub mod places;
pub mod problem;
pub mod region;
pub mod state;
pub mod steady;
pub mod texts;
pub mod tokens;
pub mod unicode;
pub mod views;
pub mod wellnamed;
pub mod written;
