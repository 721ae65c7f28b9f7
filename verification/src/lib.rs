//! A small interactive-fiction engine: a world of locations whose actions are
//! gated by boolean conditions over named properties and whose effects move the
//! player or flip a property.
//!
//! - [`world`] holds the data of a world, [`condition`] and [`directive`] the
//!   two small languages that its rules are written in, and [`grammar`] the
//!   proofs that the condition parser accepts the grammar and nothing else.
//! - [`yaml`] and [`loader`] turn the YAML document of a location into a
//!   [`world::Location`], and the files of a world into its locations.
//! - [`game`] holds the state of a game, evaluates conditions against it and
//!   lets directives take effect on it.
//! - [`session`] and [`wrap`] hold the state of the screen that a game is
//!   played on and the wrapping of its messages.

pub mod chars;
pub mod world;
pub mod error;
pub mod condition;
pub mod grammar;
pub mod directive;
pub mod yaml;
pub mod loader;
pub mod game;
pub mod wrap;
pub mod session;
