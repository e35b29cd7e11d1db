//! The access-management service: registration, login, employee
//! management, hierarchy assignment, and the central authorization check.
//!
//! Authentication failures are always reported as `Unauthorized`, never as
//! `NotFound`, so a caller learns nothing about whether a username exists.
//! Authorization failures are reported as `Forbidden`. A deactivated user
//! grants no effective permission even while their role, permission, and
//! hierarchy associations remain stored.

use vstd::prelude::*;

use crate::entities::permission::{Capability, Permission};
use crate::entities::user::User;
use crate::entities::user_hierarchy::UserHierarchy;
use crate::errors::AppError;
use crate::models::user::{CreateUserDTO, UpdateUserDTO, UserResponseDTO};
use crate::models::user_role::UserRoleResponseDTO;
use crate::repositories::container::{
    same_except_hierarchy, same_except_user, same_except_user_roles, RepositoryContainer,
};
use crate::repositories::hierarchy::{assign_manager_spec, in_chain};
use crate::entities::role_permission::RolePermission;
use crate::repositories::permission::permission_grants;
use crate::repositories::role_permission::grant_taken;
use crate::repositories::user::{
    create_user_spec, projects_user, set_active_spec, update_user_spec, user_active,
    user_found, user_id_taken, username_taken,
};
use crate::entities::user_role::UserRole;
use crate::entities::store_users::StoreUsers;
use crate::entities::store::Store;
use crate::repositories::store::store_owned_by;
use crate::repositories::store_users::access_taken;
use crate::repositories::user_role::{add_user_role_spec, delete_user_role_spec, pair_taken};

verus! {

/// Some row of `s` carries the given username, is active, and stores the
/// given credential: exactly the users the login workflow accepts.
pub open spec fn login_ok(s: Seq<User>, name: Seq<char>, pw: Seq<char>) -> bool {
    exists |i: int| 0 <= i < s.len() && #[trigger] s[i].username@ == name
        && s[i].is_active && s[i].password@ == pw
}

/// Some row of `s` carries the given username and is active: exactly the
/// users the logout workflow accepts.
pub open spec fn active_username(s: Seq<User>, name: Seq<char>) -> bool {
    exists |i: int| 0 <= i < s.len() && #[trigger] s[i].username@ == name && s[i].is_active
}

/// `u` is an active user standing somewhere below `m` in the hierarchy.
pub open spec fn is_subordinate(u: User, h: Seq<UserHierarchy>, m: u128) -> bool {
    u.is_active && u.id != m && in_chain(h, u.id, m)
}

/// The active users whose upward chain passes through `m`, in user-table
/// order: the transitive subtree of direct and indirect reports.
pub open spec fn subordinates(users: Seq<User>, h: Seq<UserHierarchy>, m: u128) -> Seq<User> {
    users.filter(|u: User| is_subordinate(u, h, m))
}

/// Some role grants the capability on the entity: a grant row joins the
/// role to a permission row scoped to the entity with the flag set.
pub open spec fn role_grants(
    rp: Seq<RolePermission>,
    perms: Seq<Permission>,
    role_id: i32,
    entity: Seq<char>,
    c: Capability,
) -> bool {
    exists |pid: i32| #[trigger] grant_taken(rp, role_id, pid)
        && permission_grants(perms, pid, entity, c)
}

/// The central authorization judgment: the user is active and at least one
/// of their roles grants the capability on the entity.
pub open spec fn authorized(
    users: Seq<User>,
    ur: Seq<UserRole>,
    rp: Seq<RolePermission>,
    perms: Seq<Permission>,
    user_id: u128,
    entity: Seq<char>,
    c: Capability,
) -> bool {
    &&& user_active(users, user_id)
    &&& exists |role_id: i32| #[trigger] pair_taken(ur, user_id, role_id)
        && role_grants(rp, perms, role_id, entity, c)
}

/// The store-access judgment: the user is active and either owns the
/// store or has been granted access to it. A deactivated user has no
/// effective store access even while the grant rows remain.
pub open spec fn store_access(
    users: Seq<User>,
    stores: Seq<Store>,
    su: Seq<StoreUsers>,
    user_id: u128,
    store_id: i32,
) -> bool {
    &&& user_active(users, user_id)
    &&& (store_owned_by(stores, store_id, user_id) || access_taken(su, store_id, user_id))
}

/// The access-management service: the unit an external transport layer
/// calls, owning the repositories that hold the persisted state.
pub struct UserAccessManagementService {
    /// The repositories backing every workflow.
    pub repository_container: RepositoryContainer,
}

impl UserAccessManagementService {
    /// Wraps the given repositories.
    pub fn new(repository_container: RepositoryContainer) -> (r: Self)
        ensures
            r.repository_container == repository_container,
    {
        UserAccessManagementService { repository_container }
    }

    /// Registers a new user through the user repository.
    ///
    /// The credential in the payload is expected to have been processed by
    /// the external hashing collaborator before this point; it is stored as
    /// given and never echoed.
    pub fn register_user(&mut self, payload: CreateUserDTO) -> (r: Result<UserResponseDTO, AppError>)
        requires
            old(self).repository_container.user_repo.wf(),
        ensures
            final(self).repository_container.user_repo.wf(),
            same_except_user(old(self).repository_container, final(self).repository_container),
            create_user_spec(
                old(self).repository_container.user_repo,
                final(self).repository_container.user_repo,
                payload,
                r,
            ),
    {
        self.repository_container.user_repo.create_user(payload)
    }

    /// Authenticates a user by username and credential.
    ///
    /// Fails with `Unauthorized` — never `NotFound` — when the username is
    /// absent, the user is deactivated, or the credential does not match;
    /// session issuance is the external session collaborator's step after
    /// this check succeeds.
    pub fn login_user(&self, username: &str, password: &str) -> (r: Result<UserResponseDTO, AppError>)
        requires
            self.repository_container.user_repo.wf(),
        ensures
            match r {
                Ok(dto) => login_ok(
                    self.repository_container.user_repo@, username@, password@,
                ) && exists |i: int| 0 <= i < self.repository_container.user_repo@.len()
                    && (#[trigger] self.repository_container.user_repo@[i].username@) == username@
                    && projects_user(self.repository_container.user_repo@[i], dto),
                Err(e) => e is Unauthorized
                    && !login_ok(self.repository_container.user_repo@, username@, password@),
            },
    {
        let name: String = username.to_owned();
        let users = &self.repository_container.user_repo;
        let u = match users.find_by_username(&name) {
            Some(u) => u,
            None => {
                return Err(AppError::Unauthorized);
            },
        };
        let pw: String = password.to_owned();
        let credentials_match = u.password == pw;
        if u.is_active && credentials_match {
            proof {
                let s = users@;
                let j = choose |j: int| 0 <= j < s.len() && s[j] == u;
                assert(s[j].username@ == username@ && s[j].is_active && s[j].password@ == password@);
            }
            Ok(UserResponseDTO { id: u.id, username: u.username, email: u.email })
        } else {
            proof {
                let s = users@;
                let j = choose |j: int| 0 <= j < s.len() && s[j] == u;
                if login_ok(s, username@, password@) {
                    let i = choose |i: int| 0 <= i < s.len() && s[i].username@ == username@
                        && s[i].is_active && s[i].password@ == password@;
                    if i != j {
                        assert(s[i].id != s[j].id);
                        assert(s[i].username@ != s[j].username@);
                    }
                }
            }
            Err(AppError::Unauthorized)
        }
    }

    /// Resolves the user a session is being closed for.
    ///
    /// Fails with `Unauthorized` — never `NotFound` — when the username is
    /// absent or the user is deactivated; revoking the session token is the
    /// external session collaborator's step after this check succeeds.
    pub fn logout_user(&self, username: &str) -> (r: Result<(), AppError>)
        requires
            self.repository_container.user_repo.wf(),
        ensures
            match r {
                Ok(()) => active_username(self.repository_container.user_repo@, username@),
                Err(e) => e is Unauthorized
                    && !active_username(self.repository_container.user_repo@, username@),
            },
    {
        let name: String = username.to_owned();
        let users = &self.repository_container.user_repo;
        let u = match users.find_by_username(&name) {
            Some(u) => u,
            None => {
                return Err(AppError::Unauthorized);
            },
        };
        proof {
            let s = users@;
            let j = choose |j: int| 0 <= j < s.len() && s[j] == u;
            if !u.is_active && active_username(s, username@) {
                let i = choose |i: int| 0 <= i < s.len() && s[i].username@ == username@
                    && s[i].is_active;
                if i != j {
                    assert(s[i].id != s[j].id);
                    assert(s[i].username@ != s[j].username@);
                }
            }
            if u.is_active {
                assert(s[j].username@ == username@ && s[j].is_active);
            }
        }
        if u.is_active {
            Ok(())
        } else {
            Err(AppError::Unauthorized)
        }
    }

    /// Returns the projection of the user with the given username, or
    /// `NotFound`.
    pub fn get_user(&self, username: &str) -> (r: Result<UserResponseDTO, AppError>)
        ensures
            match r {
                Ok(dto) => exists |i: int| 0 <= i < self.repository_container.user_repo@.len()
                    && (#[trigger] self.repository_container.user_repo@[i].username@) == username@
                    && projects_user(self.repository_container.user_repo@[i], dto),
                Err(e) => e is NotFound
                    && !username_taken(self.repository_container.user_repo@, username@),
            },
    {
        let name: String = username.to_owned();
        let users = &self.repository_container.user_repo;
        match users.find_by_username(&name) {
            Some(u) => {
                proof {
                    let s = users@;
                    let j = choose |j: int| 0 <= j < s.len() && s[j] == u;
                    assert(s[j].username@ == username@);
                }
                Ok(UserResponseDTO { id: u.id, username: u.username, email: u.email })
            },
            None => Err(AppError::NotFound),
        }
    }

    /// Returns the projections of the employees in the given manager's
    /// scope, in user-table order.
    ///
    /// The scope adopted here is the full transitive subtree: every active
    /// user, other than the manager, whose upward reporting chain passes
    /// through the manager. Deactivated users are excluded even while
    /// their hierarchy rows remain stored.
    pub fn get_employees(&self, manager_id: u128) -> (r: Result<Vec<UserResponseDTO>, AppError>)
        requires
            self.repository_container.hierarchy_repo.wf(),
        ensures
            match r {
                Ok(v) => {
                    let members = subordinates(
                        self.repository_container.user_repo@,
                        self.repository_container.hierarchy_repo@,
                        manager_id,
                    );
                    &&& v@.len() == members.len()
                    &&& forall |k: int| 0 <= k < members.len()
                        ==> projects_user(members[k], #[trigger] v@[k])
                },
                Err(_) => false,
            },
    {
        let users = &self.repository_container.user_repo;
        let hierarchy = &self.repository_container.hierarchy_repo;
        let ghost us = users@;
        let ghost h = hierarchy@;
        proof {
            reveal(Seq::filter);
            assert(us.subrange(0, 0) =~= Seq::<User>::empty());
        }
        let mut out: Vec<UserResponseDTO> = Vec::new();
        let n = users.count();
        let mut i: usize = 0;
        while i < n
            invariant
                n == us.len(),
                us == users@,
                h == hierarchy@,
                hierarchy.wf(),
                i <= n,
                out@.len() == subordinates(us.subrange(0, i as int), h, manager_id).len(),
                forall |k: int| 0 <= k < out@.len()
                    ==> projects_user(
                        subordinates(us.subrange(0, i as int), h, manager_id)[k],
                        #[trigger] out@[k],
                    ),
            decreases n - i,
        {
            let u = users.row(i);
            let included = if u.is_active && u.id != manager_id {
                hierarchy.chain_contains(u.id, manager_id)
            } else {
                false
            };
            proof {
                assert(included == is_subordinate(us[i as int], h, manager_id));
                lemma_subordinates_step(us, h, manager_id, i as int);
            }
            if included {
                out.push(UserResponseDTO {
                    id: u.id,
                    username: u.username.clone(),
                    email: u.email.clone(),
                });
            }
            i += 1;
        }
        proof {
            assert(us.subrange(0, n as int) =~= us);
        }
        Ok(out)
    }

    /// Returns the projection of the user with the given id, or
    /// `NotFound`.
    pub fn get_employee_by_id(&self, employee_id: u128) -> (r: Result<UserResponseDTO, AppError>)
        ensures
            match r {
                Ok(dto) => user_found(self.repository_container.user_repo@, employee_id, dto),
                Err(e) => e is NotFound
                    && !user_id_taken(self.repository_container.user_repo@, employee_id),
            },
    {
        self.repository_container.user_repo.get_user_by_id(employee_id)
    }

    /// Coalesce-on-null update of an employee's profile.
    ///
    /// The payload has no active-flag field, so this path can never toggle
    /// activation — that is the distinct privileged operation — and the
    /// contract records that the flag is unchanged.
    pub fn update_employee(&mut self, employee_id: u128, payload: UpdateUserDTO) -> (r: Result<UserResponseDTO, AppError>)
        requires
            old(self).repository_container.user_repo.wf(),
        ensures
            final(self).repository_container.user_repo.wf(),
            same_except_user(old(self).repository_container, final(self).repository_container),
            update_user_spec(
                old(self).repository_container.user_repo,
                final(self).repository_container.user_repo,
                employee_id,
                payload,
                r,
            ),
    {
        self.repository_container.user_repo.update_user(employee_id, payload)
    }

    /// Deactivates an employee: the active flag is cleared, the row and all
    /// role, permission, and hierarchy associations are preserved, and the
    /// user grants no effective permission from then on.
    pub fn deactivate_employee(&mut self, employee_id: u128) -> (r: Result<(), AppError>)
        requires
            old(self).repository_container.user_repo.wf(),
        ensures
            final(self).repository_container.user_repo.wf(),
            same_except_user(old(self).repository_container, final(self).repository_container),
            set_active_spec(
                old(self).repository_container.user_repo,
                final(self).repository_container.user_repo,
                employee_id,
                false,
                r,
            ),
    {
        self.repository_container.user_repo.set_active(employee_id, false)
    }

    /// Reactivates an employee: the active flag is set again.
    pub fn reactive_employee(&mut self, employee_id: u128) -> (r: Result<(), AppError>)
        requires
            old(self).repository_container.user_repo.wf(),
        ensures
            final(self).repository_container.user_repo.wf(),
            same_except_user(old(self).repository_container, final(self).repository_container),
            set_active_spec(
                old(self).repository_container.user_repo,
                final(self).repository_container.user_repo,
                employee_id,
                true,
                r,
            ),
    {
        self.repository_container.user_repo.set_active(employee_id, true)
    }

    /// Assigns a role to a user, enforcing that both exist and that the
    /// user does not already hold the role.
    pub fn assign_role(&mut self, user_id: u128, role_id: i32) -> (r: Result<UserRoleResponseDTO, AppError>)
        requires
            old(self).repository_container.user_role_repo.wf(),
        ensures
            final(self).repository_container.user_role_repo.wf(),
            same_except_user_roles(old(self).repository_container, final(self).repository_container),
            add_user_role_spec(
                old(self).repository_container.user_repo,
                old(self).repository_container.role_repo,
                old(self).repository_container.user_role_repo,
                final(self).repository_container.user_role_repo,
                user_id,
                role_id,
                r,
            ),
    {
        self.repository_container.user_role_repo.add_user_role(
            &self.repository_container.user_repo,
            &self.repository_container.role_repo,
            user_id,
            role_id,
        )
    }

    /// Revokes a role from a user.
    pub fn revoke_role(&mut self, user_id: u128, role_id: i32) -> (r: Result<(), AppError>)
        requires
            old(self).repository_container.user_role_repo.wf(),
        ensures
            final(self).repository_container.user_role_repo.wf(),
            same_except_user_roles(old(self).repository_container, final(self).repository_container),
            delete_user_role_spec(
                old(self).repository_container.user_role_repo,
                final(self).repository_container.user_role_repo,
                user_id,
                role_id,
                r,
            ),
    {
        self.repository_container.user_role_repo.delete_user_role(user_id, role_id)
    }

    /// Assigns or reassigns an employee's direct manager, rejecting any
    /// edge that would make the employee their own indirect manager.
    pub fn assign_manager(&mut self, user_id: u128, manager_id: u128) -> (r: Result<(), AppError>)
        requires
            old(self).repository_container.hierarchy_repo.wf(),
        ensures
            final(self).repository_container.hierarchy_repo.wf(),
            same_except_hierarchy(old(self).repository_container, final(self).repository_container),
            assign_manager_spec(
                old(self).repository_container.user_repo,
                old(self).repository_container.hierarchy_repo,
                final(self).repository_container.hierarchy_repo,
                user_id,
                manager_id,
                r,
            ),
    {
        self.repository_container.hierarchy_repo.assign_manager(
            &self.repository_container.user_repo,
            user_id,
            manager_id,
        )
    }

    /// The central authorization check: succeeds exactly when the user is
    /// active and some role they hold grants the required capability on the
    /// named entity; everything else — unknown user, deactivated user,
    /// missing grant — is `Forbidden`.
    pub fn check_permission(&self, user_id: u128, entity_name: &str, capability: Capability) -> (r: Result<(), AppError>)
        requires
            self.repository_container.user_repo.wf(),
        ensures
            match r {
                Ok(()) => authorized(
                    self.repository_container.user_repo@,
                    self.repository_container.user_role_repo@,
                    self.repository_container.role_permission_repo@,
                    self.repository_container.permission_repo@,
                    user_id,
                    entity_name@,
                    capability,
                ),
                Err(e) => e is Forbidden && !authorized(
                    self.repository_container.user_repo@,
                    self.repository_container.user_role_repo@,
                    self.repository_container.role_permission_repo@,
                    self.repository_container.permission_repo@,
                    user_id,
                    entity_name@,
                    capability,
                ),
            },
    {
        let ghost ur = self.repository_container.user_role_repo@;
        let ghost rp = self.repository_container.role_permission_repo@;
        let ghost perms = self.repository_container.permission_repo@;
        if !self.repository_container.user_repo.is_active_user(user_id) {
            return Err(AppError::Forbidden);
        }
        let entity: String = entity_name.to_owned();
        let role_ids = self.repository_container.user_role_repo.role_ids_of(user_id);
        let mut ri: usize = 0;
        while ri < role_ids.len()
            invariant
                entity@ == entity_name@,
                ur == self.repository_container.user_role_repo@,
                rp == self.repository_container.role_permission_repo@,
                perms == self.repository_container.permission_repo@,
                forall |k: int| 0 <= k < role_ids@.len()
                    ==> pair_taken(ur, user_id, #[trigger] role_ids@[k]),
                forall |i: int| 0 <= i < ur.len() && (#[trigger] ur[i].user_id) == user_id
                    ==> role_ids@.contains(ur[i].role_id),
                user_active(self.repository_container.user_repo@, user_id),
                forall |k: int| 0 <= k < ri
                    ==> !role_grants(rp, perms, #[trigger] role_ids@[k], entity_name@, capability),
            decreases role_ids.len() - ri,
        {
            let role_id = role_ids[ri];
            if self.role_grants_capability(role_id, &entity, capability) {
                proof {
                    assert(pair_taken(ur, user_id, role_id)
                        && role_grants(rp, perms, role_id, entity_name@, capability));
                }
                return Ok(());
            }
            ri += 1;
        }
        proof {
            if authorized(
                self.repository_container.user_repo@, ur, rp, perms,
                user_id, entity_name@, capability,
            ) {
                let role_id = choose |role_id: i32| #[trigger] pair_taken(ur, user_id, role_id)
                    && role_grants(rp, perms, role_id, entity_name@, capability);
                let i = choose |i: int| 0 <= i < ur.len() && ur[i].user_id == user_id
                    && ur[i].role_id == role_id;
                assert(role_ids@.contains(ur[i].role_id));
                let k = choose |k: int| 0 <= k < role_ids@.len() && role_ids@[k] == role_id;
                assert(!role_grants(rp, perms, role_ids@[k], entity_name@, capability));
            }
        }
        Err(AppError::Forbidden)
    }

    /// The store-access check: succeeds exactly when the user is active
    /// and either owns the store or holds an access grant for it;
    /// everything else is `Forbidden`.
    pub fn check_store_access(&self, user_id: u128, store_id: i32) -> (r: Result<(), AppError>)
        requires
            self.repository_container.user_repo.wf(),
            self.repository_container.store_repo.wf(),
        ensures
            match r {
                Ok(()) => store_access(
                    self.repository_container.user_repo@,
                    self.repository_container.store_repo@,
                    self.repository_container.store_users_repo@,
                    user_id,
                    store_id,
                ),
                Err(e) => e is Forbidden && !store_access(
                    self.repository_container.user_repo@,
                    self.repository_container.store_repo@,
                    self.repository_container.store_users_repo@,
                    user_id,
                    store_id,
                ),
            },
    {
        if !self.repository_container.user_repo.is_active_user(user_id) {
            return Err(AppError::Forbidden);
        }
        if self.repository_container.store_repo.is_owned_by(store_id, user_id) {
            return Ok(());
        }
        let granted = match self
            .repository_container
            .store_users_repo
            .check_if_access_exists(store_id, user_id) {
            Ok(b) => b,
            Err(_) => false,
        };
        if granted {
            Ok(())
        } else {
            Err(AppError::Forbidden)
        }
    }

    /// Whether the given role grants the capability on the entity through
    /// any of its permission grants.
    fn role_grants_capability(&self, role_id: i32, entity: &String, capability: Capability) -> (r: bool)
        ensures
            r == role_grants(
                self.repository_container.role_permission_repo@,
                self.repository_container.permission_repo@,
                role_id,
                entity@,
                capability,
            ),
    {
        let ghost rp = self.repository_container.role_permission_repo@;
        let ghost perms = self.repository_container.permission_repo@;
        let pids = self.repository_container.role_permission_repo.permission_ids_of(role_id);
        let mut pi: usize = 0;
        while pi < pids.len()
            invariant
                rp == self.repository_container.role_permission_repo@,
                perms == self.repository_container.permission_repo@,
                forall |k: int| 0 <= k < pids@.len()
                    ==> grant_taken(rp, role_id, #[trigger] pids@[k]),
                forall |i: int| 0 <= i < rp.len() && (#[trigger] rp[i].role_id) == role_id
                    ==> pids@.contains(rp[i].permission_id),
                forall |l: int| 0 <= l < pi
                    ==> !permission_grants(perms, #[trigger] pids@[l], entity@, capability),
            decreases pids.len() - pi,
        {
            let pid = pids[pi];
            if self.repository_container.permission_repo.grants(pid, entity, capability) {
                proof {
                    assert(grant_taken(rp, role_id, pid)
                        && permission_grants(perms, pid, entity@, capability));
                }
                return true;
            }
            pi += 1;
        }
        proof {
            if role_grants(rp, perms, role_id, entity@, capability) {
                let pid = choose |pid: i32| #[trigger] grant_taken(rp, role_id, pid)
                    && permission_grants(perms, pid, entity@, capability);
                let i = choose |i: int| 0 <= i < rp.len() && rp[i].role_id == role_id
                    && rp[i].permission_id == pid;
                assert(pids@.contains(rp[i].permission_id));
                let l = choose |l: int| 0 <= l < pids@.len() && pids@[l] == pid;
                assert(!permission_grants(perms, pids@[l], entity@, capability));
            }
        }
        false
    }
}

/// One scan step of the subtree query: extending the scanned prefix by one
/// row appends that row to the filtered members exactly when it is a
/// subordinate.
proof fn lemma_subordinates_step(users: Seq<User>, h: Seq<UserHierarchy>, m: u128, i: int)
    requires
        0 <= i < users.len(),
    ensures
        subordinates(users.subrange(0, i + 1), h, m) ==
            if is_subordinate(users[i], h, m) {
                subordinates(users.subrange(0, i), h, m).push(users[i])
            } else {
                subordinates(users.subrange(0, i), h, m)
            },
{
    reveal(Seq::filter);
    let t = users.subrange(0, i);
    let tp = users.subrange(0, i + 1);
    assert(tp.drop_last() =~= t);
    assert(tp.last() == users[i]);
}

} // verus!
