//! Request and response shapes for the role aggregate.

use vstd::prelude::*;

verus! {

/// Payload for creating a new role.
#[derive(Debug, Clone)]
pub struct CreateRoleDTO {
    /// The name of the role.
    pub name: String,
}

/// Payload for a partial update of an existing role: a `None` name leaves
/// the stored value unchanged.
#[derive(Debug, Clone)]
pub struct UpdateRoleDTO {
    /// The new name of the role, if it is to change.
    pub name: Option<String>,
}

/// Projection of a role row returned to callers.
#[derive(Debug, Clone)]
pub struct RoleResponseDTO {
    /// The unique identifier of the role.
    pub id: i32,
    /// The name of the role.
    pub name: String,
}

} // verus!
