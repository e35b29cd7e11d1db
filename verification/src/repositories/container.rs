//! The set of repositories that together own the persisted state.

use vstd::prelude::*;

use crate::repositories::hierarchy::UserHierarchyRepository;
use crate::repositories::permission::PermissionRepository;
use crate::repositories::role::RoleRepository;
use crate::repositories::role_permission::RolePermissionRepository;
use crate::repositories::store::StoreRepository;
use crate::repositories::store_users::StoreUsersRepository;
use crate::repositories::user::UserRepository;
use crate::repositories::user_role::UserRoleRepository;

verus! {

/// Only the user table changed between the two container states.
pub open spec fn same_except_user(pre: RepositoryContainer, post: RepositoryContainer) -> bool {
    &&& post.role_repo == pre.role_repo
    &&& post.permission_repo == pre.permission_repo
    &&& post.user_role_repo == pre.user_role_repo
    &&& post.role_permission_repo == pre.role_permission_repo
    &&& post.hierarchy_repo == pre.hierarchy_repo
    &&& post.store_repo == pre.store_repo
    &&& post.store_users_repo == pre.store_users_repo
}

/// Only the user-role table changed between the two container states.
pub open spec fn same_except_user_roles(pre: RepositoryContainer, post: RepositoryContainer) -> bool {
    &&& post.user_repo == pre.user_repo
    &&& post.role_repo == pre.role_repo
    &&& post.permission_repo == pre.permission_repo
    &&& post.role_permission_repo == pre.role_permission_repo
    &&& post.hierarchy_repo == pre.hierarchy_repo
    &&& post.store_repo == pre.store_repo
    &&& post.store_users_repo == pre.store_users_repo
}

/// Only the hierarchy table changed between the two container states.
pub open spec fn same_except_hierarchy(pre: RepositoryContainer, post: RepositoryContainer) -> bool {
    &&& post.user_repo == pre.user_repo
    &&& post.role_repo == pre.role_repo
    &&& post.permission_repo == pre.permission_repo
    &&& post.user_role_repo == pre.user_role_repo
    &&& post.role_permission_repo == pre.role_permission_repo
    &&& post.store_repo == pre.store_repo
    &&& post.store_users_repo == pre.store_users_repo
}

/// Container for all repository instances: one per aggregate and one per
/// relationship.
pub struct RepositoryContainer {
    /// The user repository instance.
    pub user_repo: UserRepository,
    /// The role repository instance.
    pub role_repo: RoleRepository,
    /// The permission repository instance.
    pub permission_repo: PermissionRepository,
    /// The user-role relationship repository instance.
    pub user_role_repo: UserRoleRepository,
    /// The role-permission relationship repository instance.
    pub role_permission_repo: RolePermissionRepository,
    /// The management-hierarchy repository instance.
    pub hierarchy_repo: UserHierarchyRepository,
    /// The store repository instance.
    pub store_repo: StoreRepository,
    /// The store-user relationship repository instance.
    pub store_users_repo: StoreUsersRepository,
}

impl RepositoryContainer {
    /// Every table invariant holds.
    pub open spec fn wf(&self) -> bool {
        &&& self.user_repo.wf()
        &&& self.role_repo.wf()
        &&& self.permission_repo.wf()
        &&& self.user_role_repo.wf()
        &&& self.role_permission_repo.wf()
        &&& self.hierarchy_repo.wf()
        &&& self.store_repo.wf()
        &&& self.store_users_repo.wf()
    }

    /// Creates a container of empty repositories.
    pub fn new() -> (r: Self)
        ensures
            r.wf(),
            r.user_repo@.len() == 0,
            r.role_repo@.len() == 0,
            r.permission_repo@.len() == 0,
            r.user_role_repo@.len() == 0,
            r.role_permission_repo@.len() == 0,
            r.hierarchy_repo@.len() == 0,
            r.store_repo@.len() == 0,
            r.store_users_repo@.len() == 0,
    {
        RepositoryContainer {
            user_repo: UserRepository::new(),
            role_repo: RoleRepository::new(),
            permission_repo: PermissionRepository::new(),
            user_role_repo: UserRoleRepository::new(),
            role_permission_repo: RolePermissionRepository::new(),
            hierarchy_repo: UserHierarchyRepository::new(),
            store_repo: StoreRepository::new(),
            store_users_repo: StoreUsersRepository::new(),
        }
    }
}

} // verus!
