//! The entity model: plain records for each aggregate and each
//! composite-key relationship.
//!
//! Identifiers that the surrounding system carries as UUIDs are held here as
//! their 128-bit values, and timestamps as milliseconds since the Unix
//! epoch, so that every field is a plain value the contracts can speak of.

pub mod permission;
pub mod role;
pub mod role_permission;
pub mod store;
pub mod store_users;
pub mod user;
pub mod user_hierarchy;
pub mod user_role;
