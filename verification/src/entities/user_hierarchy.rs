//! The management-hierarchy relationship record.

use vstd::prelude::*;

verus! {

/// A reporting edge: `user_id` reports directly to `reports_to`. A user has
/// at most one such edge, the two identifiers differ, and the edges of a
/// table never form a cycle, so the hierarchy is a forest.
#[derive(Debug, Clone)]
pub struct UserHierarchy {
    /// The unique identifier of the reporting user.
    pub user_id: u128,
    /// The unique identifier of the user reported to.
    pub reports_to: u128,
}

} // verus!
