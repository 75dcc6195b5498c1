//! Structured logging core and the decision logic of a small windowed shell.
pub mod log;
pub mod shell;
