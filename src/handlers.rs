//! The error that a failed discovery run reports to the HTTP layer.

use vstd::prelude::*;

verus! {

/// A discovery run failed: a listing call to the registry returned an error,
/// and no partial result is handed out.
#[derive(Debug, Clone, Copy, PartialEq, Eq)]
pub struct CloudMapError;

} // verus!
