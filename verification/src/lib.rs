//! A source-level code generator for staged self-referential structs: a
//! declarative field list, read from a small TOML document, is turned into the
//! text of a staged builder whose later fields may hold views into earlier
//! fields.

pub mod config;
pub mod doc;
pub mod emit;
pub mod scan;
pub mod staged;
pub mod text;
