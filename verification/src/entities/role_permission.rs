//! The role-to-permission relationship record.

use vstd::prelude::*;

verus! {

/// A grant of a permission to a role; the (role id, permission id) pair is
/// unique across the table.
#[derive(Debug, Clone)]
pub struct RolePermission {
    /// The identifier of the role.
    pub role_id: i32,
    /// The identifier of the permission granted to the role.
    pub permission_id: i32,
}

} // verus!
