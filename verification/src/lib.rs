//! Batch file transfers driven by a stream of instructions.
//!
//! An instruction stream is a sequence of records, each either a source
//! declaration (`<path`) or a destination declaration (`>path`). Every
//! destination declaration pairs with the most recent source declaration
//! and yields one transfer, a move or a copy.
//!
//! The crate holds the record splitter, the instruction parsers and the
//! decision procedure of the transfer engine. Reading the input, touching
//! the filesystem and writing to the terminal are left to the caller.

pub mod cli;
pub mod fs;
pub mod grammar;
pub mod input;
pub mod instr;
pub mod io;
pub mod line;
pub mod path;
pub mod stream;
pub mod text;
pub mod verbose;

