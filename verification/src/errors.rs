//! The two outcomes the HTTP layer turns into error pages. Neither arises
//! inside the store itself: a missing paste is a valid lookup result, and
//! the store's own operations never fail.

use vstd::prelude::*;

verus! {

/// A paste was asked for under an identifier with no resident entry —
/// never inserted, or already evicted. A valid outcome, not a fault.
pub struct NotFound;

/// A failure outside the store's logic (template rendering, for one),
/// carrying a description of what went wrong.
pub struct InternalServerError(pub String);

} // verus!
