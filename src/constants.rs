//! Names and texts that identify the application.
use vstd::prelude::*;

verus! {

/// The application's name, as users see it.
pub const CARGO_PKG_NAME: &'static str = "spotikill";

/// The application's version.
pub const CARGO_PKG_VERSION: &'static str = "0.1.0";

/// The display name of the application whose processes are terminated.
pub const TARGET_NAME: &'static str = "Spotify";

/// The expression, matched without regard to case, that the target
/// application's process names satisfy; an executable suffix may follow.
pub const TARGET_PATTERN: &'static str = r"(spotify)([ \w()]*)(\.exe)?";

} // verus!
