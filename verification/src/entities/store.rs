//! The store aggregate record and its address.

use vstd::prelude::*;

verus! {

/// A store row: identifier, owning user, name, address, and audit
/// timestamps. The owner must reference an existing user.
#[derive(Debug, Clone)]
pub struct Store {
    /// The unique identifier of the store.
    pub id: i32,
    /// The unique identifier of the owner of the store.
    pub owner_id: u128,
    /// The name of the store.
    pub name: String,
    /// The address of the store.
    pub address: Address,
    /// When the row was created, in milliseconds since the Unix epoch.
    pub created_at: i64,
    /// When the row was last updated, in milliseconds since the Unix epoch.
    pub updated_at: i64,
}

/// A postal address.
#[derive(Debug, Clone)]
pub struct Address {
    /// The country of the address.
    pub country: String,
    /// The state of the address.
    pub state: String,
    /// The city of the address.
    pub city: String,
    /// The street of the address.
    pub street: String,
    /// The zip code of the address.
    pub zip: String,
}

} // verus!
