use vstd::prelude::*;

verus! {

/// Errors reported by the tracker core.
#[derive(Debug, Clone, PartialEq, Eq)]
pub enum AppError {
    /// A storage call failed; the state transition it anchored did not happen.
    Database(String),
    /// `start` was called while a session is running.
    TimerAlreadyRunning,
    /// `stop` was called while no session is running.
    TimerNotRunning,
    /// The requested export format is not known.
    UnsupportedExportFormat,
    /// Productivity policy refuses to start a session, with the reason.
    PolicyViolation(String),
    Io(String),
    Serde(String),
    Chrono(String),
    Csv(String),
    CsvInner(String),
    Tauri(String),
    Custom(String),
}

} // verus!
