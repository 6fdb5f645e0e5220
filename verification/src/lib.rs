//! Build orchestration and load-time bridge for a packet-inspection plugin
//! that embeds the nDPI detection engine.
//!
//! The library decides; it touches neither the file system nor the
//! compiler. A build hands it what it found (the environment, the entries of
//! directories, the text of a header) and gets back what to do:
//!
//! - `discovery`: from directory listings to the sorted list of sources;
//! - `header`: the synthesized configuration header and the patch of macro
//!   definitions, as functions from text to text;
//! - `public_headers`: which headers to copy, and where to;
//! - `config`: what a native compilation is given, include order first;
//! - `link`: what the plugin is linked with, by target platform;
//! - `plan`: the ordered steps of the two builds, or the error that ends them;
//! - `error`: the errors and their messages;
//! - `bridge`: the forwarding call behind the plugin's entry point;
//! - `path`, `text`: paths and characters as the others read them;
//! - `header_laws`, `discovery_laws`: what holds of every patch and of every
//!   discovery.

pub mod bridge;
pub mod config;
pub mod discovery;
pub mod discovery_laws;
pub mod error;
pub mod header;
pub mod header_laws;
pub mod link;
pub mod path;
pub mod plan;
pub mod public_headers;
pub mod text;
