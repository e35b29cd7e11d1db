//! Repository for the role-to-permission relationship.
//!
//! Before a grant is inserted both referenced aggregate ids must exist —
//! the role in the role table, the permission in the permission table —
//! and the (role id, permission id) pair must not already be present.

use vstd::prelude::*;

use crate::entities::role_permission::RolePermission;
use crate::errors::AppError;
use crate::repositories::permission::{permission_id_taken, PermissionRepository};
use crate::repositories::role::{role_id_taken, RoleRepository};

verus! {

/// Some row of `s` grants the given permission to the given role.
pub open spec fn grant_taken(s: Seq<RolePermission>, role_id: i32, permission_id: i32) -> bool {
    exists |i: int| 0 <= i < s.len() && #[trigger] s[i].role_id == role_id
        && s[i].permission_id == permission_id
}

/// The uniqueness invariant of the table: no two rows share the
/// (role id, permission id) pair.
pub open spec fn role_permissions_wf(s: Seq<RolePermission>) -> bool {
    forall |i: int, j: int| 0 <= i < s.len() && 0 <= j < s.len() && i != j ==>
        !((#[trigger] s[i].role_id == #[trigger] s[j].role_id)
            && s[i].permission_id == s[j].permission_id)
}

/// Repository for role-permission rows: the single owner of the persisted
/// grant table.
pub struct RolePermissionRepository {
    role_permissions: Vec<RolePermission>,
}

impl View for RolePermissionRepository {
    type V = Seq<RolePermission>;

    /// The persisted table, in insertion order.
    closed spec fn view(&self) -> Seq<RolePermission> {
        self.role_permissions@
    }
}

impl RolePermissionRepository {
    /// The table invariant: pair uniqueness.
    pub open spec fn wf(&self) -> bool {
        role_permissions_wf(self@)
    }

    /// Creates an empty repository.
    pub fn new() -> (r: Self)
        ensures
            r.wf(),
            r@ =~= Seq::<RolePermission>::empty(),
    {
        RolePermissionRepository { role_permissions: Vec::new() }
    }

    /// Whether some row grants the given permission to the given role.
    pub fn check_if_grant_exists(&self, role_id: i32, permission_id: i32) -> (r: Result<bool, AppError>)
        ensures
            r == Result::<bool, AppError>::Ok(grant_taken(self@, role_id, permission_id)),
    {
        Ok(self.index_of_grant(role_id, permission_id).is_some())
    }

    /// The position of the row with the given pair, if any.
    fn index_of_grant(&self, role_id: i32, permission_id: i32) -> (r: Option<usize>)
        ensures
            match r {
                Some(i) => i < self@.len() && self@[i as int].role_id == role_id
                    && self@[i as int].permission_id == permission_id,
                None => !grant_taken(self@, role_id, permission_id),
            },
    {
        let mut i: usize = 0;
        while i < self.role_permissions.len()
            invariant
                i <= self.role_permissions.len(),
                forall |k: int| 0 <= k < i
                    ==> !((#[trigger] self.role_permissions@[k].role_id) == role_id
                        && self.role_permissions@[k].permission_id == permission_id),
            decreases self.role_permissions.len() - i,
        {
            if self.role_permissions[i].role_id == role_id
                && self.role_permissions[i].permission_id == permission_id {
                return Some(i);
            }
            i += 1;
        }
        None
    }

    /// Grants a permission to a role.
    ///
    /// Fails with `NotFound` unless both referenced aggregates exist, with
    /// `Conflict` when the role already holds the permission; otherwise the
    /// grant is appended.
    pub fn add_role_permission(
        &mut self,
        roles: &RoleRepository,
        permissions: &PermissionRepository,
        role_id: i32,
        permission_id: i32,
    ) -> (r: Result<(), AppError>)
        requires
            old(self).wf(),
        ensures
            final(self).wf(),
            match r {
                Ok(()) => {
                    &&& role_id_taken(roles@, role_id)
                    &&& permission_id_taken(permissions@, permission_id)
                    &&& !grant_taken(old(self)@, role_id, permission_id)
                    &&& final(self)@.len() == old(self)@.len() + 1
                    &&& final(self)@.subrange(0, old(self)@.len() as int) =~= old(self)@
                    &&& final(self)@.last().role_id == role_id
                    &&& final(self)@.last().permission_id == permission_id
                },
                Err(e) => *final(self) == *old(self) && match e {
                    AppError::NotFound => !role_id_taken(roles@, role_id)
                        || !permission_id_taken(permissions@, permission_id),
                    AppError::Conflict => role_id_taken(roles@, role_id)
                        && permission_id_taken(permissions@, permission_id)
                        && grant_taken(old(self)@, role_id, permission_id),
                    _ => false,
                },
            },
    {
        let role_exists = match roles.check_if_id_exists(role_id) {
            Ok(b) => b,
            Err(e) => return Err(e),
        };
        let permission_exists = match permissions.check_if_id_exists(permission_id) {
            Ok(b) => b,
            Err(e) => return Err(e),
        };
        if !role_exists || !permission_exists {
            return Err(AppError::NotFound);
        }
        let grant_exists = match self.check_if_grant_exists(role_id, permission_id) {
            Ok(b) => b,
            Err(e) => return Err(e),
        };
        if grant_exists {
            return Err(AppError::Conflict);
        }
        self.role_permissions.push(RolePermission { role_id, permission_id });
        proof {
            let s0 = old(self)@;
            let s1 = self@;
            assert(s1.subrange(0, s0.len() as int) =~= s0);
            assert forall |x: int, y: int| 0 <= x < s1.len() && 0 <= y < s1.len() && x != y
                implies !(s1[x].role_id == s1[y].role_id
                    && s1[x].permission_id == s1[y].permission_id) by {
                if x < s0.len() && y < s0.len() {
                    assert(s1[x] == s0[x] && s1[y] == s0[y]);
                } else if x < s0.len() {
                    assert(s1[x] == s0[x] && s1[y] == s1.last());
                } else {
                    assert(s1[x] == s1.last() && s1[y] == s0[y]);
                }
            }
        }
        Ok(())
    }

    /// Revokes a permission from a role, or fails with `NotFound` when the
    /// role does not hold it.
    pub fn delete_role_permission(&mut self, role_id: i32, permission_id: i32) -> (r: Result<(), AppError>)
        requires
            old(self).wf(),
        ensures
            final(self).wf(),
            match r {
                Ok(()) => {
                    &&& grant_taken(old(self)@, role_id, permission_id)
                    &&& !grant_taken(final(self)@, role_id, permission_id)
                    &&& exists |i: int| 0 <= i < old(self)@.len()
                        && (#[trigger] old(self)@[i].role_id) == role_id
                        && old(self)@[i].permission_id == permission_id
                        && final(self)@ =~= old(self)@.remove(i)
                },
                Err(e) => *final(self) == *old(self) && e is NotFound
                    && !grant_taken(old(self)@, role_id, permission_id),
            },
    {
        let i = match self.index_of_grant(role_id, permission_id) {
            Some(i) => i,
            None => return Err(AppError::NotFound),
        };
        self.role_permissions.remove(i);
        proof {
            let s0 = old(self)@;
            let s1 = self@;
            assert(s1 =~= s0.remove(i as int));
            assert forall |k: int| 0 <= k < s1.len()
                implies !((#[trigger] s1[k].role_id) == role_id
                    && s1[k].permission_id == permission_id) by {
                if k < i {
                    assert(s1[k] == s0[k]);
                } else {
                    assert(s1[k] == s0[k + 1]);
                }
            }
            assert forall |x: int, y: int| 0 <= x < s1.len() && 0 <= y < s1.len() && x != y
                implies !(s1[x].role_id == s1[y].role_id
                    && s1[x].permission_id == s1[y].permission_id) by {
                let x0: int = if x < i { x } else { x + 1 };
                let y0: int = if y < i { y } else { y + 1 };
                assert(s1[x] == s0[x0] && s1[y] == s0[y0]);
            }
        }
        Ok(())
    }

    /// The permission ids granted to the given role, in table order:
    /// exactly the permission-id column of the role's rows.
    pub fn permission_ids_of(&self, role_id: i32) -> (r: Vec<i32>)
        ensures
            r@ == role_permission_ids(self@, role_id),
            forall |k: int| 0 <= k < r@.len() ==> grant_taken(self@, role_id, #[trigger] r@[k]),
            forall |i: int| 0 <= i < self@.len() && (#[trigger] self@[i].role_id) == role_id
                ==> r@.contains(self@[i].permission_id),
    {
        proof {
            reveal(Seq::filter);
            assert(self.role_permissions@.subrange(0, 0) =~= Seq::<RolePermission>::empty());
        }
        let mut out: Vec<i32> = Vec::new();
        let mut i: usize = 0;
        while i < self.role_permissions.len()
            invariant
                i <= self.role_permissions.len(),
                out@ == role_permission_ids(self.role_permissions@.subrange(0, i as int), role_id),
                forall |k: int| 0 <= k < out@.len()
                    ==> grant_taken(self.role_permissions@, role_id, #[trigger] out@[k]),
                forall |j: int| 0 <= j < i
                    && (#[trigger] self.role_permissions@[j].role_id) == role_id
                    ==> out@.contains(self.role_permissions@[j].permission_id),
            decreases self.role_permissions.len() - i,
        {
            proof {
                lemma_role_permission_ids_step(self.role_permissions@, role_id, i as int);
            }
            if self.role_permissions[i].role_id == role_id {
                let permission_id = self.role_permissions[i].permission_id;
                let ghost out0 = out@;
                out.push(permission_id);
                proof {
                    assert forall |j: int| 0 <= j <= i as int
                        && (#[trigger] self.role_permissions@[j].role_id) == role_id
                        implies out@.contains(self.role_permissions@[j].permission_id) by {
                        if j < i as int {
                            let v = self.role_permissions@[j].permission_id;
                            let k = choose |k: int| 0 <= k < out0.len() && out0[k] == v;
                            assert(out@[k] == v);
                        } else {
                            assert(out@[out0.len() as int] == permission_id);
                        }
                    }
                }
            }
            i += 1;
        }
        proof {
            assert(self.role_permissions@.subrange(0, self.role_permissions@.len() as int)
                =~= self.role_permissions@);
        }
        out
    }
}

/// The permission-id column of the rows of `s` that belong to the given
/// role, in table order.
pub open spec fn role_permission_ids(s: Seq<RolePermission>, role_id: i32) -> Seq<i32> {
    s.filter(|row: RolePermission| row.role_id == role_id)
        .map_values(|row: RolePermission| row.permission_id)
}

/// One scan step of the permission-id listing: extending the scanned
/// prefix by one row appends its permission id exactly when the row
/// belongs to the role.
proof fn lemma_role_permission_ids_step(s: Seq<RolePermission>, role_id: i32, i: int)
    requires
        0 <= i < s.len(),
    ensures
        role_permission_ids(s.subrange(0, i + 1), role_id) ==
            if s[i].role_id == role_id {
                role_permission_ids(s.subrange(0, i), role_id).push(s[i].permission_id)
            } else {
                role_permission_ids(s.subrange(0, i), role_id)
            },
{
    reveal(Seq::filter);
    let t = s.subrange(0, i);
    let tp = s.subrange(0, i + 1);
    assert(tp.drop_last() =~= t);
    assert(tp.last() == s[i]);
    let pred = |row: RolePermission| row.role_id == role_id;
    if pred(s[i]) {
        assert(tp.filter(pred) == t.filter(pred).push(s[i]));
        assert(role_permission_ids(tp, role_id)
            =~= role_permission_ids(t, role_id).push(s[i].permission_id));
    } else {
        assert(tp.filter(pred) == t.filter(pred));
    }
}

} // verus!
