//! An interactive shell engine for managing small, named, in-memory tabular
//! datasets: a command tokenizer and dispatcher, a dataset registry with a
//! load-validation pipeline, a table renderer, and a completion/highlight
//! engine for the line editor.  The session loop around it owns the
//! terminal, the file system and the external table engine, and hands this
//! library plain values; everything the library decides is verified.

pub mod cmd;
pub mod complete;
pub mod io;
pub mod registry;
pub mod render;
pub mod strutil;
pub mod table;
pub mod tokenize;
pub mod validate;
