//! What the functions of this crate promise, stated of their arguments and results.
pub mod audio;
pub mod errors;
pub mod requests;
pub mod settings;
pub mod speech;
pub mod texts;
pub mod voices;
