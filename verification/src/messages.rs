//! The messages between clients and the server that concern sessions.

use vstd::prelude::*;

use crate::table::Table;

verus! {

/// What a client asks of the server.
#[derive(Debug)]
pub enum CoreClientMessage {
    /// Asks for the list of all sessions.
    ListSessions,
    /// Asks for a new session.
    CreateSession { cwd: String, shell: String, env: Table<String>, cols: u16, rows: u16 },
    /// Asks for the output stream of a session.
    Attach { session_id: String, mode: String },
    /// Sends keyboard input to a session.
    Input { session_id: String, data: String },
    /// Changes the dimensions of a session's terminal.
    Resize { session_id: String, cols: u16, rows: u16 },
    /// Gives a session another name.
    RenameSession { session_id: String, new_name: String },
    /// Ends a session and its process.
    KillSession { session_id: String },
}

/// What the server tells its clients.
#[derive(Debug, Clone)]
pub enum CoreServerMessage {
    /// The list of all sessions.
    SessionList { sessions: Vec<SessionInfo> },
    /// Terminal output of a session.
    Output { session_id: String, data: String },
    /// A session has been closed.
    SessionClosed { session_id: String },
    /// A client message could not be served.
    Error { message: String, error_code: Option<String> },
    /// Another process is in the foreground of a session.
    ForegroundChanged { session_id: String, process_name: Option<String> },
    /// Activity in a session: output, a bell or silence.
    SessionActivity { session_id: String, activity_type: String },
    /// The shell of a session has exited.
    SessionExited { session_id: String, exit_code: Option<i32> },
    /// The working directory of a session has changed.
    CwdChanged { session_id: String, cwd: String },
}

/// What clients are told of a session.
#[derive(Debug, Clone)]
pub struct SessionInfo {
    /// The id of the session.
    pub id: String,
    /// The name that the session is displayed under.
    pub name: String,
    /// The path of the shell.
    pub shell: String,
    /// The working directory.
    pub cwd: String,
    /// When the session was started.
    pub started_at: String,
    /// The state of the session.
    pub state: Option<String>,
    /// The name of the process in the foreground.
    pub foreground_process: Option<String>,
    /// When the session was last active.
    pub last_activity_at: Option<String>,
    /// The exit code of the shell, if it has exited.
    pub exit_code: Option<i32>,
}

} // verus!
