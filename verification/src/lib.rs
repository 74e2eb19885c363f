//! A streaming XML reader and writer: parser configuration, parts of the
//! pull parser's state machine, and the event emitter of the writer.
pub mod attribute;
pub mod common;
pub mod escape;
pub mod name;
pub mod namespace;
pub mod reader;
pub mod writer;
