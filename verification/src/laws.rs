//! What calls of the library's functions have to do with their arguments and with
//! each other, said in plain terms.

pub mod engine;
pub mod history;
pub mod persistence;
pub mod process;
pub mod pty;
pub mod reader;
pub mod session;
pub mod table;
pub mod text;
