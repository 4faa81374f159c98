//! Random password generation under per-category coverage constraints.
//!
//! The character sets are built from a configuration ([`GeneratorConfig`]);
//! a [`PasswordGenerator`] checks that the requested length can hold one
//! character of every selected set and then draws passwords that contain at
//! least one character of each set and nothing outside their union.

pub mod charset;
pub mod cli;
pub mod generator;
mod random;

pub use charset::{chars_of, DIGITS, LOWERCASE, SYMBOLS, UPPERCASE};
pub use cli::{parse_chars, parse_length, ArgError, Args, MIN_LENGTH};
pub use generator::{generate_passwords, ConfigError, GeneratorConfig, PasswordGenerator};
