//! The role aggregate record.

use vstd::prelude::*;

verus! {

/// A role row: a sequential identifier and a unique name.
#[derive(Debug, Clone)]
pub struct Role {
    /// The unique identifier of the role.
    pub id: i32,
    /// The name of the role; unique across the table.
    pub name: String,
}

} // verus!
