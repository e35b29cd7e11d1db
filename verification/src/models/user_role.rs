//! Response shape for the user-to-role relationship.

use vstd::prelude::*;

verus! {

/// Projection of a user-role association, echoing both foreign keys.
#[derive(Debug, Clone)]
pub struct UserRoleResponseDTO {
    /// The unique identifier of the user.
    pub user_id: u128,
    /// The identifier of the role assigned to the user.
    pub role_id: i32,
}

} // verus!
