//! Chess ratings from two public rating services, normalised into one record
//! and rendered through a small `{key}` template language.
//!
//! - [`fmt`] renders a template against a record; [`fmt::laws`] holds what is
//!   proved of every rendering.
//! - [`chesscom`] and [`lichess`] turn the documents of the two services into
//!   a record; [`source`] holds what they share.
//! - [`options`] reads the command-line flags.
//! - [`error`] names the failures of fetching.
//! - [`text`] holds the text primitives the others are built on.
//!
//! Every function is verified against its contract. Fetching and decoding
//! the documents is left to the caller.

pub mod chesscom;
pub mod error;
pub mod fmt;
pub mod lichess;
pub mod options;
pub mod source;
pub mod text;
