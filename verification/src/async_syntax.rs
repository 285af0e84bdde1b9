//! Priorities of the background syntax highlighting requests.
use vstd::prelude::*;

verus! {

/// Priority levels for syntax highlighting requests
#[derive(Debug, Clone, Copy, PartialEq, Eq, PartialOrd, Ord, Structural)]
pub enum Priority {
    Low,  // Background processing of entire file
    Medium,  // Lines within scroll buffer (±50 lines)
    High,  // Currently visible lines
    Critical,  // User is actively editing this line
}

} // verus!
