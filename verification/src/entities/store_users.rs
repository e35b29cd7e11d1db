//! The store-to-user relationship record.

use vstd::prelude::*;

verus! {

/// A grant of store access to a user; the (store id, user id) pair is
/// unique across the table.
#[derive(Debug, Clone)]
pub struct StoreUsers {
    /// The identifier of the store.
    pub store_id: i32,
    /// The unique identifier of the user associated with the store.
    pub user_id: u128,
}

} // verus!
