//! Terminal styling: the ANSI escape sequences the report formatters embed.
use vstd::prelude::*;

verus! {

/// Back to the default style.
pub const RESET: &'static str = "\x1b[0m";

/// Bold text.
pub const BOLD: &'static str = "\x1b[1m";

/// Dimmed text.
pub const DIM: &'static str = "\x1b[2m";

/// Red text.
pub const RED: &'static str = "\x1b[31m";

/// Green text.
pub const GREEN: &'static str = "\x1b[32m";

/// Yellow text.
pub const YELLOW: &'static str = "\x1b[33m";

/// Cyan text.
pub const CYAN: &'static str = "\x1b[36m";

} // verus!
