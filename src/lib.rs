//! A small callback-based ini parser, and a reader for pacman's config built on it.
//!
//! The parser streams one event per meaningful line to a handler that implements
//! [`Ini`]; the handler decides what each section and directive means.

pub mod text;
pub mod float;
pub mod ini;
pub mod error;
pub mod options;
pub mod config;

pub use crate::error::{Error, ErrorKind, ErrorLine};
pub use crate::ini::{split_pair, Callback, CallbackKind, Ini};
pub use crate::options::Options;
pub use crate::config::{Config, Repository};
