//! Maintain an Avahi alias file: parse it, validate its entries, and compute
//! the transactional rewrites behind the `avahi-alias` command-line tool and
//! its companion publishing daemon.
//!
//! The crate is organised leaf-first: [`alias`] holds the alias grammar,
//! [`line`] the per-line comment and whitespace handling, [`aliases_file`]
//! the in-memory image of the alias file with its query and rewrite
//! operations, and the remaining modules the supporting pieces (errors,
//! record encoding, Avahi protocol constants, option validation, and the
//! daemon's change-detection logic).

use vstd::prelude::*;

pub mod alias;
pub mod aliases_file;
pub mod avahi;
pub mod avahi_record;
pub mod cnames;
pub mod commands;
pub mod daemon;
pub mod encoding;
pub mod error;
pub mod line;
pub mod logging;
pub mod options;
pub mod num_text;
pub mod text;
pub mod validation;

pub use alias::Alias;
pub use alias::is_valid_alias;
pub use alias::new_alias;
pub use alias::validate_aliases;
pub use aliases_file::AliasesFile;
pub use avahi_record::AvahiRecord;
pub use cnames::CNamesFile;
pub use error::ErrorWrapper;
pub use line::Line;
pub use logging::LogLevel;
pub use logging::compute_log_level;
pub use options::Command;
pub use options::CommandOpts;
pub use options::CommonOpts;
pub use options::DaemonOpts;

verus! {

/// Default timeout for talking to the discovery service, in seconds.
pub const DEFAULT_TIMEOUT_SECS: u64 = 60;

} // verus!
