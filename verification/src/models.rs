//! Request and response shapes exchanged with the transport collaborator.
//!
//! A create payload carries every required field; an update payload carries
//! an `Option` per field, where `None` leaves the stored value unchanged;
//! a response is a projection of the stored row that never includes the
//! credential.

pub mod role;
pub mod user;
pub mod user_role;
