//! Laws of the repository and service contracts: properties that span
//! more than one operation, proved once and for all from the operations'
//! own specifications.

use vstd::prelude::*;

use crate::entities::permission::{Capability, Permission};
use crate::entities::role_permission::RolePermission;
use crate::entities::user_hierarchy::UserHierarchy;
use crate::entities::user_role::UserRole;
use crate::errors::AppError;
use crate::models::role::CreateRoleDTO;
use crate::models::user::{CreateUserDTO, UpdateUserDTO, UserResponseDTO};
use crate::models::user_role::UserRoleResponseDTO;
use crate::repositories::hierarchy::{
    assign_manager_spec, edge, in_chain, reaches, UserHierarchyRepository,
};
use crate::repositories::role::{create_role_spec, role_id_taken, role_name_taken, RoleRepository};
use crate::repositories::user::{
    create_user_spec, delete_user_spec, set_active_spec, update_user_spec, user_found,
    user_id_taken, username_taken, UserRepository,
};
use crate::repositories::user_role::{
    add_user_role_spec, delete_user_role_spec, pair_taken, UserRoleRepository,
};
use crate::services::user_access_management_service::authorized;

verus! {

/// Creating a user and then reading it back by the returned id yields a
/// projection whose id, username, and email match the creation payload.
/// The projection type has no credential field, so the credential can
/// never be present in it.
pub proof fn lemma_create_then_get(
    pre: UserRepository,
    post: UserRepository,
    payload: CreateUserDTO,
    dto: UserResponseDTO,
    dto2: UserResponseDTO,
)
    requires
        post.wf(),
        create_user_spec(pre, post, payload, Result::Ok(dto)),
        user_found(post@, dto.id, dto2),
    ensures
        dto2.id == dto.id,
        dto2.username@ == payload.username@,
        dto2.email@ == payload.email@,
{
    let n = post@.len() - 1;
    assert(post@[n] == post@.last());
    let i = choose |i: int| 0 <= i < post@.len() && post@[i].id == dto.id
        && crate::repositories::user::projects_user(post@[i], dto2);
    if i != n {
        assert(post@[i].id != post@[n].id);
    }
}

/// A successful create always makes a later read by that id succeed: the
/// id is taken in the post-state.
pub proof fn lemma_create_makes_id_found(
    pre: UserRepository,
    post: UserRepository,
    payload: CreateUserDTO,
    dto: UserResponseDTO,
)
    requires
        create_user_spec(pre, post, payload, Result::Ok(dto)),
    ensures
        user_id_taken(post@, dto.id),
{
    let n = post@.len() - 1;
    assert(post@[n] == post@.last());
    assert(post@[n].id == dto.id);
}

/// Creating a second user with the username of an existing one yields
/// `Conflict`, whatever the rest of the payload.
pub proof fn lemma_duplicate_username_conflicts(
    pre: UserRepository,
    mid: UserRepository,
    post: UserRepository,
    first: CreateUserDTO,
    dto: UserResponseDTO,
    second: CreateUserDTO,
    r2: Result<UserResponseDTO, AppError>,
)
    requires
        create_user_spec(pre, mid, first, Result::Ok(dto)),
        second.username@ == first.username@,
        create_user_spec(mid, post, second, r2),
    ensures
        r2 == Result::<UserResponseDTO, AppError>::Err(AppError::Conflict),
        post == mid,
{
    let n = mid@.len() - 1;
    assert(mid@[n] == mid@.last());
    assert(mid@[n].username@ == second.username@);
    assert(username_taken(mid@, second.username@));
}

/// The same law for roles: a second role under an existing name yields
/// `Conflict`.
pub proof fn lemma_duplicate_role_name_conflicts(
    pre: RoleRepository,
    mid: RoleRepository,
    post: RoleRepository,
    first: CreateRoleDTO,
    dto: crate::models::role::RoleResponseDTO,
    second: CreateRoleDTO,
    r2: Result<crate::models::role::RoleResponseDTO, AppError>,
)
    requires
        create_role_spec(pre, mid, first, Result::Ok(dto)),
        second.name@ == first.name@,
        create_role_spec(mid, post, second, r2),
    ensures
        r2 == Result::<crate::models::role::RoleResponseDTO, AppError>::Err(AppError::Conflict),
        post == mid,
{
    let n = mid@.len() - 1;
    assert(mid@[n] == mid@.last());
    assert(mid@[n].name@ == second.name@);
    assert(role_name_taken(mid@, second.name@));
}

/// An update that supplies only the email changes only the email: a
/// subsequent read by the same id shows the prior username (and the prior
/// credential stays stored), while a supplied email is the one read back.
pub proof fn lemma_update_changes_only_email(
    pre: UserRepository,
    post: UserRepository,
    id: u128,
    payload: UpdateUserDTO,
    dto: UserResponseDTO,
    dto2: UserResponseDTO,
)
    requires
        post.wf(),
        payload.username is None,
        payload.password is None,
        update_user_spec(pre, post, id, payload, Result::Ok(dto)),
        user_found(post@, id, dto2),
    ensures
        dto2.id == id,
        exists |i: int| 0 <= i < pre@.len() && #[trigger] pre@[i].id == id
            && dto2.username@ == pre@[i].username@
            && post@[i].password@ == pre@[i].password@
            && (match payload.email {
                Some(e) => dto2.email@ == e@,
                None => dto2.email@ == pre@[i].email@,
            }),
{
    let i = choose |i: int| 0 <= i < pre@.len() && #[trigger] pre@[i].id == id
        && crate::repositories::user::user_updated(pre@[i], post@[i], payload)
        && crate::repositories::user::projects_user(post@[i], dto)
        && (forall |j: int| 0 <= j < pre@.len() && j != i ==> post@[j] == pre@[j]);
    let j = choose |j: int| 0 <= j < post@.len() && post@[j].id == id
        && crate::repositories::user::projects_user(post@[j], dto2);
    if i != j {
        assert(post@[i].id != post@[j].id);
    }
    assert(pre@[i].id == id && dto2.username@ == pre@[i].username@
        && post@[i].password@ == pre@[i].password@
        && (match payload.email {
            Some(e) => dto2.email@ == e@,
            None => dto2.email@ == pre@[i].email@,
        }));
}

/// Deleting an unknown id yields `NotFound` and leaves the store alone.
pub proof fn lemma_delete_unknown_not_found(
    pre: UserRepository,
    post: UserRepository,
    id: u128,
    r: Result<(), AppError>,
)
    requires
        !user_id_taken(pre@, id),
        delete_user_spec(pre, post, id, r),
    ensures
        r == Result::<(), AppError>::Err(AppError::NotFound),
        post == pre,
{
}

/// Deletion succeeds exactly once: after a successful delete the same id
/// is gone, so a second delete yields `NotFound`.
pub proof fn lemma_delete_twice(
    pre: UserRepository,
    mid: UserRepository,
    post: UserRepository,
    id: u128,
    r2: Result<(), AppError>,
)
    requires
        delete_user_spec(pre, mid, id, Result::Ok(())),
        delete_user_spec(mid, post, id, r2),
    ensures
        r2 == Result::<(), AppError>::Err(AppError::NotFound),
        post == mid,
{
}

/// Assigning the same role to the same user twice: the second assignment
/// yields `Conflict` and changes nothing.
pub proof fn lemma_assign_role_twice(
    users: UserRepository,
    roles: RoleRepository,
    pre: UserRoleRepository,
    mid: UserRoleRepository,
    post: UserRoleRepository,
    user_id: u128,
    role_id: i32,
    dto: UserRoleResponseDTO,
    r2: Result<UserRoleResponseDTO, AppError>,
)
    requires
        add_user_role_spec(users, roles, pre, mid, user_id, role_id, Result::Ok(dto)),
        add_user_role_spec(users, roles, mid, post, user_id, role_id, r2),
    ensures
        r2 == Result::<UserRoleResponseDTO, AppError>::Err(AppError::Conflict),
        post == mid,
{
    let n = mid@.len() - 1;
    assert(mid@[n] == mid@.last());
    assert(pair_taken(mid@, user_id, role_id));
}

/// Revoking a role and assigning it again succeeds, as long as both the
/// user and the role still exist.
pub proof fn lemma_reassign_after_revoke(
    users: UserRepository,
    roles: RoleRepository,
    pre: UserRoleRepository,
    mid: UserRoleRepository,
    post: UserRoleRepository,
    user_id: u128,
    role_id: i32,
    r2: Result<UserRoleResponseDTO, AppError>,
)
    requires
        delete_user_role_spec(pre, mid, user_id, role_id, Result::Ok(())),
        user_id_taken(users@, user_id),
        role_id_taken(roles@, role_id),
        add_user_role_spec(users, roles, mid, post, user_id, role_id, r2),
    ensures
        r2 is Ok,
{
}

/// A single reporting edge puts the manager on the subordinate's chain.
pub proof fn lemma_edge_in_chain(s: Seq<UserHierarchy>, a: u128, b: u128)
    requires
        edge(s, a, b),
    ensures
        in_chain(s, a, b),
{
    assert(reaches(s, b, b, 0));
    assert(edge(s, a, b) && reaches(s, b, b, 0));
    assert(reaches(s, a, b, 1));
}

/// Chain membership composes along the hierarchy: an ancestor of an
/// ancestor is an ancestor.
pub proof fn lemma_in_chain_trans(s: Seq<UserHierarchy>, a: u128, b: u128, c: u128)
    requires
        in_chain(s, a, b),
        in_chain(s, b, c),
    ensures
        in_chain(s, a, c),
{
    let k = choose |k: nat| reaches(s, a, b, k);
    let j = choose |j: nat| reaches(s, b, c, j);
    lemma_reaches_trans(s, a, b, c, k, j);
}

/// Step-counted version of chain transitivity.
proof fn lemma_reaches_trans(s: Seq<UserHierarchy>, a: u128, b: u128, c: u128, k: nat, j: nat)
    requires
        reaches(s, a, b, k),
        reaches(s, b, c, j),
    ensures
        reaches(s, a, c, (k + j) as nat),
    decreases k,
{
    if k != 0 {
        let m = choose |m: u128| #[trigger] edge(s, a, m) && reaches(s, m, b, (k - 1) as nat);
        lemma_reaches_trans(s, m, b, c, (k - 1) as nat, j);
        assert(edge(s, a, m) && reaches(s, m, c, (k - 1 + j) as nat));
    }
}

/// Cycle prevention: whenever the subject already stands on the proposed
/// manager's upward chain — directly, as with an existing edge the other
/// way round, or through any number of levels — and both users exist, the
/// assignment is rejected with `Conflict` and the hierarchy is unchanged.
pub proof fn lemma_cycle_rejected(
    users: UserRepository,
    pre: UserHierarchyRepository,
    post: UserHierarchyRepository,
    user_id: u128,
    manager_id: u128,
    r: Result<(), AppError>,
)
    requires
        in_chain(pre@, manager_id, user_id),
        user_id_taken(users@, user_id),
        user_id_taken(users@, manager_id),
        assign_manager_spec(users, pre, post, user_id, manager_id, r),
    ensures
        r == Result::<(), AppError>::Err(AppError::Conflict),
        post == pre,
{
}

/// A deactivated user is denied by the authorization check whatever roles,
/// grants, and permissions remain associated with them.
pub proof fn lemma_deactivated_denied(
    pre: UserRepository,
    post: UserRepository,
    id: u128,
    ur: Seq<UserRole>,
    rp: Seq<RolePermission>,
    perms: Seq<Permission>,
    entity: Seq<char>,
    c: Capability,
)
    requires
        post.wf(),
        set_active_spec(pre, post, id, false, Result::Ok(())),
    ensures
        !authorized(post@, ur, rp, perms, id, entity, c),
{
    let i = choose |i: int| 0 <= i < pre@.len() && #[trigger] pre@[i].id == id
        && crate::repositories::user::active_toggled(pre@[i], post@[i], false)
        && (forall |j: int| 0 <= j < pre@.len() && j != i ==> post@[j] == pre@[j]);
    if crate::repositories::user::user_active(post@, id) {
        let j = choose |j: int| 0 <= j < post@.len() && post@[j].id == id && post@[j].is_active;
        if i != j {
            assert(post@[i].id != post@[j].id);
        }
    }
}

} // verus!
