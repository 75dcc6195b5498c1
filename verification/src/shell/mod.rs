//! The decisions of the windowed shell: configuration, adapter choice, context renewal
//! and frame handling.
pub mod config;
pub mod version;
pub mod adapter;
pub mod context;
pub mod app;
