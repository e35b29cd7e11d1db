//! The user aggregate record.

use vstd::prelude::*;

verus! {

/// A user row: the unique identifier, the unique username and email, the
/// stored credential, the active flag, and the audit timestamps.
#[derive(Debug, Clone)]
pub struct User {
    /// The unique identifier of the user.
    pub id: u128,
    /// The username of the user; unique across the table.
    pub username: String,
    /// The stored credential of the user; never part of any projection.
    pub password: String,
    /// The email of the user; unique across the table.
    pub email: String,
    /// When the row was created, in milliseconds since the Unix epoch.
    pub created_at: i64,
    /// When the row was last updated, in milliseconds since the Unix epoch.
    pub updated_at: i64,
    /// Whether the user is active; a deactivated user grants no permission.
    pub is_active: bool,
}

} // verus!
