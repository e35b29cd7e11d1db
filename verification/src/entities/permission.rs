//! The permission aggregate record.

use vstd::prelude::*;

verus! {

/// A permission row: a capability set over one named entity. Several rows
/// may target the same entity name; they combine by union, so any row that
/// grants a capability suffices.
#[derive(Debug, Clone)]
pub struct Permission {
    /// The unique identifier of the permission.
    pub id: i32,
    /// The entity name the capability set is scoped to.
    pub entity_name: String,
    /// Whether the permission allows reading.
    pub can_read: bool,
    /// Whether the permission allows writing.
    pub can_write: bool,
    /// Whether the permission allows deleting.
    pub can_delete: bool,
    /// Whether the permission allows updating.
    pub can_update: bool,
}

/// One of the four capabilities a permission row can grant on its entity.
#[derive(Debug, Clone, Copy, PartialEq, Eq, Structural)]
pub enum Capability {
    /// Permission to read the entity.
    Read,
    /// Permission to write the entity.
    Write,
    /// Permission to delete the entity.
    Delete,
    /// Permission to update the entity.
    Update,
}

} // verus!
