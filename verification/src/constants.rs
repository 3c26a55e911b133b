//! Limits and fixed lists shared by the modules.

use vstd::prelude::*;

verus! {

/// Shells that a session may be started with.
pub const SHELL_WHITELIST: [&'static str; 11] = [
    "/bin/sh",
    "/bin/bash",
    "/bin/zsh",
    "/bin/fish",
    "/usr/bin/sh",
    "/usr/bin/bash",
    "/usr/bin/zsh",
    "/usr/bin/fish",
    "/usr/local/bin/bash",
    "/usr/local/bin/zsh",
    "/usr/local/bin/fish",
];

/// Environment variables that are never handed to a session's shell, because
/// the dynamic loader or the shell would run code named by them.
pub const ENV_BLOCKLIST: [&'static str; 10] = [
    "LD_PRELOAD",
    "LD_LIBRARY_PATH",
    "LD_AUDIT",
    "DYLD_INSERT_LIBRARIES",
    "DYLD_LIBRARY_PATH",
    "DYLD_FRAMEWORK_PATH",
    "BASH_ENV",
    "ENV",
    "PROMPT_COMMAND",
    "IFS",
];

/// Size in bytes of the buffer that PTY output is read into.
pub const PTY_READ_BUFFER_SIZE: usize = 4096;

/// Capacity in bytes of a session's history buffer (10 MB).
pub const DEFAULT_HISTORY_CAPACITY: usize = 10 * 1024 * 1024;

/// Histories longer than this many bytes are compressed when saved (1 MB).
pub const COMPRESSION_THRESHOLD: usize = 1024 * 1024;

/// Directory, below the base path, that holds the history files.
pub const HISTORY_SUBDIR: &'static str = "sessions";

/// File, below the base path, that holds the session metadata.
pub const SESSION_METADATA_FILE: &'static str = "sessions.json";

} // verus!
