//! Session engine of a terminal multiplexer.
//!
//! A session is a shell in a pseudo terminal. This library holds what the engine
//! knows and decides: the life of a session, the checks on what a client asks
//! for, how the output of the terminal is cut into text and kept as a bounded
//! history, what is saved of all that and how it is found again, and how the
//! process in the foreground is named. Terminals, files, tasks and the wire
//! format are the caller's part; they meet the library in plain values.

pub mod constants;
pub mod engine;
pub mod history;
pub mod laws;
pub mod messages;
pub mod persistence;
pub mod process;
pub mod pty;
pub mod reader;
pub mod session;
pub mod table;
pub mod text;
pub mod utf8;
pub mod views;

pub use engine::create_session;
pub use history::CircularBuffer;
pub use messages::{CoreClientMessage, CoreServerMessage, SessionInfo};
pub use pty::MockPtyProvider;
pub use session::{Session, SessionEvent, SessionMap, SessionState};
