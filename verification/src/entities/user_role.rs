//! The user-to-role relationship record.

use vstd::prelude::*;

verus! {

/// An assignment of a role to a user; the (user id, role id) pair is the
/// whole identity of the association and is unique across the table.
#[derive(Debug, Clone)]
pub struct UserRole {
    /// The unique identifier of the user.
    pub user_id: u128,
    /// The identifier of the role assigned to the user.
    pub role_id: i32,
    /// When the role was assigned, in milliseconds since the Unix epoch.
    pub assigned_at: i64,
}

} // verus!
