//! Rule loading, validation, and first-match resolution.

pub mod lines;
pub mod loader;
pub mod matcher;
pub mod pattern;
pub mod truncate;
pub mod types;
pub mod validator;
