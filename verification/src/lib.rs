//! A PEP 440 version-ordering model and constraint-to-range compiler.
//!
//! The crate decides whether a version literal satisfies a declared version
//! constraint: it establishes the total order over version literals with
//! epoch, pre-, post-, dev- and local-version semantics, and converts a
//! comparison operator plus a right-hand-side literal (possibly a wildcard
//! form) into an exact set of accepted half-open version intervals.

pub mod order;
pub mod parse;
pub mod specifier;
pub mod version;

pub use parse::parse_version_wildcard;
pub use specifier::{CompareOp, Specifier, SpecifierError, Specifiers};
pub use version::{LocalSegment, PreRelease, Version, VersionOrder};
