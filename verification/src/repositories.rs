//! One repository per aggregate or relationship, each the single owner of
//! its table.

pub mod container;
pub mod hierarchy;
pub mod permission;
pub mod role;
pub mod role_permission;
pub mod store;
pub mod store_users;
pub mod user;
pub mod user_role;
