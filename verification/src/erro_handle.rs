//! The result type every lifecycle operation carries: a severity level
//! borrowed from the plugin ABI's log levels, plus a message.
//!
//! `RETRO_LOG_WARN` marks an operation that was already satisfied or had
//! nothing to undo; `RETRO_LOG_ERROR` marks a violated precondition or a
//! call the core rejected.

use vstd::prelude::*;

verus! {

/// Log severities of the plugin ABI.
#[allow(non_camel_case_types)]
#[derive(Clone, Copy, Debug, PartialEq, Eq, Structural)]
pub enum RetroLogLevel {
    RETRO_LOG_DEBUG,
    RETRO_LOG_INFO,
    RETRO_LOG_WARN,
    RETRO_LOG_ERROR,
}

/// Severity and message of a failed (or merely redundant) operation.
#[derive(Clone, Debug)]
pub struct ErroHandle {
    pub level: RetroLogLevel,
    pub message: String,
}

impl ErroHandle {
    /// A warning: the request was already satisfied, nothing was changed.
    pub fn warn(message: String) -> (r: ErroHandle)
        ensures
            r.level == RetroLogLevel::RETRO_LOG_WARN,
            r.message == message,
    {
        ErroHandle { level: RetroLogLevel::RETRO_LOG_WARN, message }
    }

    /// An error: a precondition was violated or the core rejected the call.
    pub fn error(message: String) -> (r: ErroHandle)
        ensures
            r.level == RetroLogLevel::RETRO_LOG_ERROR,
            r.message == message,
    {
        ErroHandle { level: RetroLogLevel::RETRO_LOG_ERROR, message }
    }
}

} // verus!
