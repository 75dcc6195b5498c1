//! The structured logging core: levels, events, the JSON data of fields, escaping and
//! pretty printing, the built-in writers and the global filter.
pub mod dispatch;
pub mod escape;
pub mod event;
pub mod json;
pub mod level;
pub mod parse;
pub mod pretty;
pub mod text;
pub mod value;
pub mod writers;
