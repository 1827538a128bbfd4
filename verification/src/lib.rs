//! A library for generating human-memorable passphrases: words drawn
//! uniformly at random from a corpus, each with its first character
//! uppercased, wrapped in an optional prefix and suffix.  Configuration
//! values are resolved from explicit parameters, a persisted key/value
//! source and built-in defaults, with a fixed precedence.

pub mod config;
pub mod corpus;
pub mod errors;
pub mod generate;
pub mod interact;
pub mod qrbridge;
pub mod resolve;
pub mod text;
