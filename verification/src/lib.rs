//! A verified core for a directory-listing tool.
//!
//! The library covers the pieces with real edge-case logic: decoding a raw
//! permission mode into a nine-character access string, resolving per-entry
//! metadata (with a link-aware fallback) into a normalized record, building
//! an ordered, name-keyed scan result, and packing names into fixed-width
//! columns bounded by a terminal width. Filesystem enumeration, flag parsing
//! and printing are thin collaborators around this core.

pub mod entry;
pub mod layout;
pub mod order;
pub mod permissions;
pub mod render;
pub mod scan;

use vstd::prelude::*;

verus! {

/// Command-line options, as the flag parser hands them over.
pub struct Cli {
    /// Print sizes in a human-readable format.
    pub human_readable: bool,
    /// List files in the long format.
    pub long: bool,
    /// The path to list the contents of.
    pub filepath: String,
}

/// The timezone timestamps render in when the caller does not choose
/// one.
pub fn default_zone() -> (z: &'static str)
    ensures
        z@ == "US/Central"@,
{
    "US/Central"
}

} // verus!
