//! Diagnostic session layer of a compiler front-end.

pub mod abort;
pub mod diagnostic;
pub mod handler;
pub mod ordered_set;
pub mod panic_info;
pub mod parse_error;
pub mod session;
pub mod source;
pub mod span;
pub mod text;
