//! Core of a runtime extension host: a byte-pattern scanner that locates
//! undocumented code and data inside a loaded image, an address repository
//! that memoizes resolved locations, bookkeeping for a function-interception
//! layer, a singleton directory built by passively observing object
//! construction, a process-wide capability registry, and an ABI-versioned
//! dynamic-module lifecycle manager.
//!
//! Everything here works on plain values (byte buffers, numeric addresses,
//! names); the operating-system edges (reading process memory, mapping and
//! unmapping modules, patching code) live with the embedding program, which
//! feeds their outcomes into these components.
//!
//! - [`pattern`] and [`memory`]: the pattern scanner and the hex helpers;
//! - [`repository`]: names resolved through the scanner, memoized;
//! - [`hook`]: the record of installed interceptions;
//! - [`singleton`]: constructed objects observed, then resolved by type name;
//! - [`registry`]: resident extensions and the capability table they share;
//! - [`plugin`]: the module lifecycle and its version contract;
//! - [`command`], [`logger`], [`export`], [`strings`], [`revision`],
//!   [`version`]: the chat verbs, log shaping, and the surface shared with
//!   modules.

pub mod command;
pub mod error;
pub mod export;
pub mod hook;
pub mod logger;
pub mod memory;
pub mod pattern;
pub mod plugin;
pub mod registry;
pub mod repository;
pub mod revision;
pub mod singleton;
pub mod strings;
mod table;
pub mod version;

pub use version::get_version;
