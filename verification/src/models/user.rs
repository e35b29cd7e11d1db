//! Request and response shapes for the user aggregate.

use vstd::prelude::*;

verus! {

/// Payload for creating a new user. The credential arrives already
/// processed by the external hashing collaborator.
#[derive(Debug, Clone)]
pub struct CreateUserDTO {
    /// The username of the new user.
    pub username: String,
    /// The email address of the new user.
    pub email: String,
    /// The credential for the new user.
    pub password: String,
}

/// Payload for a partial update of an existing user: each field that is
/// `None` leaves the stored value unchanged.
#[derive(Debug, Clone)]
pub struct UpdateUserDTO {
    /// An optional new username for the user.
    pub username: Option<String>,
    /// An optional new email address for the user.
    pub email: Option<String>,
    /// An optional new credential for the user.
    pub password: Option<String>,
}

/// Projection of a user row returned to callers. It has no credential
/// field, so no operation can echo a credential.
#[derive(Debug, Clone)]
pub struct UserResponseDTO {
    /// The unique identifier of the user.
    pub id: u128,
    /// The username of the user.
    pub username: String,
    /// The email address of the user.
    pub email: String,
}

} // verus!
