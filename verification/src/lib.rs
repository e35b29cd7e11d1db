//! Access-control core for a retail operations backend.
//!
//! The crate models the persisted state of the authorization subsystem —
//! users, roles, permissions, and the relationships among them — as an
//! in-memory datastore owned by one repository per aggregate, and proves
//! that every repository and service operation preserves the data-model
//! invariants (uniqueness of keys, referential integrity, and an acyclic
//! management hierarchy) while returning a classified error exactly when
//! the contract says one is owed.

use vstd::prelude::*;

pub mod clock;
pub mod config;
pub mod entities;
pub mod errors;
pub mod laws;
pub mod models;
pub mod repositories;
pub mod services;

verus! {

} // verus!
