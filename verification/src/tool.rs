//! Stored tools and the instants the platform records.
use vstd::prelude::*;

use crate::rules::ToolParameter;

verus! {

/// An instant in UTC: seconds since the Unix epoch and the nanoseconds
/// within that second.
#[derive(Debug, Clone, Copy, PartialEq, Eq, Structural)]
pub struct Timestamp {
    pub seconds: i64,
    pub nanos: u32,
}

/// The nanoseconds since the Unix epoch at an instant.
pub open spec fn instant_nanos(t: Timestamp) -> int {
    t.seconds * 1_000_000_000 + t.nanos
}

/// Whether instant `a` is strictly before instant `b`.
pub open spec fn before(a: Timestamp, b: Timestamp) -> bool {
    a.seconds < b.seconds || (a.seconds == b.seconds && a.nanos < b.nanos)
}

/// Whether instant `a` is strictly before instant `b`.
pub fn is_before(a: Timestamp, b: Timestamp) -> (r: bool)
    ensures
        r == before(a, b),
{
    a.seconds < b.seconds || (a.seconds == b.seconds && a.nanos < b.nanos)
}

/// A tool as it is stored, with its parameters in order.
#[derive(Debug)]
pub struct Tool {
    pub id: u128,
    pub name: String,
    pub description: String,
    pub category: Option<String>,
    pub script_body: Option<String>,
    pub script_path: Option<String>,
    pub working_dir: Option<String>,
    pub working_dir_expose: bool,
    pub working_dir_required: bool,
    pub timeout_ms: i64,
    pub enabled: bool,
    pub created_at: Timestamp,
    pub updated_at: Timestamp,
    pub parameters: Vec<ToolParameter>,
    pub last_run_at: Option<Timestamp>,
}

} // verus!
