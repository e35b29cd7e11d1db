//! Repository for the user-to-role relationship.
//!
//! Before an association is inserted both referenced aggregate ids must
//! exist — the user in the user table, the role in the role table — and
//! the (user id, role id) pair must not already be present; the pair is
//! the whole identity of the association.

use vstd::prelude::*;

use crate::clock;
use crate::entities::user_role::UserRole;
use crate::errors::AppError;
use crate::models::user_role::UserRoleResponseDTO;
use crate::repositories::role::{role_id_taken, RoleRepository};
use crate::repositories::user::{user_id_taken, UserRepository};

verus! {

/// Some row of `s` associates the given user and role.
pub open spec fn pair_taken(s: Seq<UserRole>, user_id: u128, role_id: i32) -> bool {
    exists |i: int| 0 <= i < s.len() && #[trigger] s[i].user_id == user_id
        && s[i].role_id == role_id
}

/// The uniqueness invariant of the table: no two rows share the
/// (user id, role id) pair.
pub open spec fn user_roles_wf(s: Seq<UserRole>) -> bool {
    forall |i: int, j: int| 0 <= i < s.len() && 0 <= j < s.len() && i != j ==>
        !((#[trigger] s[i].user_id == #[trigger] s[j].user_id)
            && s[i].role_id == s[j].role_id)
}


/// The full behaviour of `add_user_role`.
pub open spec fn add_user_role_spec(
    users: UserRepository,
    roles: RoleRepository,
    pre: UserRoleRepository,
    post: UserRoleRepository,
    user_id: u128,
    role_id: i32,
    r: Result<UserRoleResponseDTO, AppError>,
) -> bool {
    match r {
        Ok(dto) => {
            &&& user_id_taken(users@, user_id)
            &&& role_id_taken(roles@, role_id)
            &&& !pair_taken(pre@, user_id, role_id)
            &&& post@.len() == pre@.len() + 1
            &&& post@.subrange(0, pre@.len() as int) =~= pre@
            &&& post@.last().user_id == user_id
            &&& post@.last().role_id == role_id
            &&& dto.user_id == user_id && dto.role_id == role_id
        },
        Err(e) => post == pre && match e {
            AppError::NotFound => !user_id_taken(users@, user_id)
                || !role_id_taken(roles@, role_id),
            AppError::Conflict => user_id_taken(users@, user_id)
                && role_id_taken(roles@, role_id)
                && pair_taken(pre@, user_id, role_id),
            _ => false,
        },
    }
}

/// The full behaviour of `delete_user_role`.
pub open spec fn delete_user_role_spec(
    pre: UserRoleRepository,
    post: UserRoleRepository,
    user_id: u128,
    role_id: i32,
    r: Result<(), AppError>,
) -> bool {
    match r {
        Ok(()) => {
            &&& pair_taken(pre@, user_id, role_id)
            &&& !pair_taken(post@, user_id, role_id)
            &&& exists |i: int| 0 <= i < pre@.len()
                && (#[trigger] pre@[i].user_id) == user_id
                && pre@[i].role_id == role_id
                && post@ =~= pre@.remove(i)
        },
        Err(e) => post == pre && e is NotFound && !pair_taken(pre@, user_id, role_id),
    }
}

/// Repository for user-role rows: the single owner of the persisted
/// association table.
pub struct UserRoleRepository {
    user_roles: Vec<UserRole>,
}

impl View for UserRoleRepository {
    type V = Seq<UserRole>;

    /// The persisted table, in insertion order.
    closed spec fn view(&self) -> Seq<UserRole> {
        self.user_roles@
    }
}

impl UserRoleRepository {
    /// The table invariant: pair uniqueness.
    pub open spec fn wf(&self) -> bool {
        user_roles_wf(self@)
    }

    /// Creates an empty repository.
    pub fn new() -> (r: Self)
        ensures
            r.wf(),
            r@ =~= Seq::<UserRole>::empty(),
    {
        UserRoleRepository { user_roles: Vec::new() }
    }

    /// Whether some row associates the given user and role.
    pub fn check_if_user_role_exists(&self, user_id: u128, role_id: i32) -> (r: Result<bool, AppError>)
        ensures
            r == Result::<bool, AppError>::Ok(pair_taken(self@, user_id, role_id)),
    {
        Ok(self.index_of_pair(user_id, role_id).is_some())
    }

    /// The position of the row with the given pair, if any.
    fn index_of_pair(&self, user_id: u128, role_id: i32) -> (r: Option<usize>)
        ensures
            match r {
                Some(i) => i < self@.len() && self@[i as int].user_id == user_id
                    && self@[i as int].role_id == role_id,
                None => !pair_taken(self@, user_id, role_id),
            },
    {
        let mut i: usize = 0;
        while i < self.user_roles.len()
            invariant
                i <= self.user_roles.len(),
                forall |k: int| 0 <= k < i ==> !((#[trigger] self.user_roles@[k].user_id) == user_id
                    && self.user_roles@[k].role_id == role_id),
            decreases self.user_roles.len() - i,
        {
            if self.user_roles[i].user_id == user_id && self.user_roles[i].role_id == role_id {
                return Some(i);
            }
            i += 1;
        }
        None
    }

    /// Assigns a role to a user.
    ///
    /// Fails with `NotFound` unless both referenced aggregates exist, with
    /// `Conflict` when the user already holds the role; otherwise the
    /// association is appended and its projection returned.
    pub fn add_user_role(
        &mut self,
        users: &UserRepository,
        roles: &RoleRepository,
        user_id: u128,
        role_id: i32,
    ) -> (r: Result<UserRoleResponseDTO, AppError>)
        requires
            old(self).wf(),
        ensures
            final(self).wf(),
            add_user_role_spec(*users, *roles, *old(self), *final(self), user_id, role_id, r),
    {
        let user_exists = match users.check_if_id_exists(user_id) {
            Ok(b) => b,
            Err(e) => return Err(e),
        };
        let role_exists = match roles.check_if_id_exists(role_id) {
            Ok(b) => b,
            Err(e) => return Err(e),
        };
        if !user_exists || !role_exists {
            return Err(AppError::NotFound);
        }
        let pair_exists = match self.check_if_user_role_exists(user_id, role_id) {
            Ok(b) => b,
            Err(e) => return Err(e),
        };
        if pair_exists {
            return Err(AppError::Conflict);
        }
        let t = clock::now_millis();
        self.user_roles.push(UserRole { user_id, role_id, assigned_at: t });
        proof {
            let s0 = old(self)@;
            let s1 = self@;
            assert(s1.subrange(0, s0.len() as int) =~= s0);
            assert forall |x: int, y: int| 0 <= x < s1.len() && 0 <= y < s1.len() && x != y
                implies !(s1[x].user_id == s1[y].user_id && s1[x].role_id == s1[y].role_id) by {
                if x < s0.len() && y < s0.len() {
                    assert(s1[x] == s0[x] && s1[y] == s0[y]);
                } else if x < s0.len() {
                    assert(s1[x] == s0[x] && s1[y] == s1.last());
                } else {
                    assert(s1[x] == s1.last() && s1[y] == s0[y]);
                }
            }
        }
        Ok(UserRoleResponseDTO { user_id, role_id })
    }

    /// Rewrites an existing association.
    ///
    /// The pair is the whole identity of the association, so an update that
    /// matched the pair rewrites it to itself: the table is unchanged and
    /// the echoed projection returned. Fails with `NotFound` when the pair
    /// is absent.
    pub fn update_user_role(&mut self, user_id: u128, role_id: i32) -> (r: Result<UserRoleResponseDTO, AppError>)
        requires
            old(self).wf(),
        ensures
            final(self).wf(),
            *final(self) == *old(self),
            match r {
                Ok(dto) => pair_taken(old(self)@, user_id, role_id)
                    && dto.user_id == user_id && dto.role_id == role_id,
                Err(e) => e is NotFound && !pair_taken(old(self)@, user_id, role_id),
            },
    {
        let pair_exists = match self.check_if_user_role_exists(user_id, role_id) {
            Ok(b) => b,
            Err(e) => return Err(e),
        };
        if !pair_exists {
            return Err(AppError::NotFound);
        }
        Ok(UserRoleResponseDTO { user_id, role_id })
    }

    /// Revokes a role from a user, or fails with `NotFound` when the user
    /// does not hold it.
    pub fn delete_user_role(&mut self, user_id: u128, role_id: i32) -> (r: Result<(), AppError>)
        requires
            old(self).wf(),
        ensures
            final(self).wf(),
            delete_user_role_spec(*old(self), *final(self), user_id, role_id, r),
    {
        let i = match self.index_of_pair(user_id, role_id) {
            Some(i) => i,
            None => return Err(AppError::NotFound),
        };
        self.user_roles.remove(i);
        proof {
            let s0 = old(self)@;
            let s1 = self@;
            assert(s1 =~= s0.remove(i as int));
            assert forall |k: int| 0 <= k < s1.len()
                implies !((#[trigger] s1[k].user_id) == user_id && s1[k].role_id == role_id) by {
                if k < i {
                    assert(s1[k] == s0[k]);
                } else {
                    assert(s1[k] == s0[k + 1]);
                }
            }
            assert forall |x: int, y: int| 0 <= x < s1.len() && 0 <= y < s1.len() && x != y
                implies !(s1[x].user_id == s1[y].user_id && s1[x].role_id == s1[y].role_id) by {
                let x0: int = if x < i { x } else { x + 1 };
                let y0: int = if y < i { y } else { y + 1 };
                assert(s1[x] == s0[x0] && s1[y] == s0[y0]);
            }
        }
        Ok(())
    }

    /// The role ids the given user holds, in table order: exactly the
    /// role-id column of the user's rows.
    pub fn role_ids_of(&self, user_id: u128) -> (r: Vec<i32>)
        ensures
            r@ == user_role_ids(self@, user_id),
            forall |k: int| 0 <= k < r@.len() ==> pair_taken(self@, user_id, #[trigger] r@[k]),
            forall |i: int| 0 <= i < self@.len() && (#[trigger] self@[i].user_id) == user_id
                ==> r@.contains(self@[i].role_id),
    {
        proof {
            reveal(Seq::filter);
            assert(self.user_roles@.subrange(0, 0) =~= Seq::<UserRole>::empty());
        }
        let mut out: Vec<i32> = Vec::new();
        let mut i: usize = 0;
        while i < self.user_roles.len()
            invariant
                i <= self.user_roles.len(),
                out@ == user_role_ids(self.user_roles@.subrange(0, i as int), user_id),
                forall |k: int| 0 <= k < out@.len()
                    ==> pair_taken(self.user_roles@, user_id, #[trigger] out@[k]),
                forall |j: int| 0 <= j < i && (#[trigger] self.user_roles@[j].user_id) == user_id
                    ==> out@.contains(self.user_roles@[j].role_id),
            decreases self.user_roles.len() - i,
        {
            proof {
                lemma_user_role_ids_step(self.user_roles@, user_id, i as int);
            }
            if self.user_roles[i].user_id == user_id {
                let role_id = self.user_roles[i].role_id;
                let ghost out0 = out@;
                out.push(role_id);
                proof {
                    assert forall |j: int| 0 <= j <= i as int
                        && (#[trigger] self.user_roles@[j].user_id) == user_id
                        implies out@.contains(self.user_roles@[j].role_id) by {
                        if j < i as int {
                            let v = self.user_roles@[j].role_id;
                            let k = choose |k: int| 0 <= k < out0.len() && out0[k] == v;
                            assert(out@[k] == v);
                        } else {
                            assert(out@[out0.len() as int] == role_id);
                        }
                    }
                }
            }
            i += 1;
        }
        proof {
            assert(self.user_roles@.subrange(0, self.user_roles@.len() as int) =~= self.user_roles@);
        }
        out
    }
}

/// The role-id column of the rows of `s` that belong to the given user,
/// in table order.
pub open spec fn user_role_ids(s: Seq<UserRole>, user_id: u128) -> Seq<i32> {
    s.filter(|row: UserRole| row.user_id == user_id).map_values(|row: UserRole| row.role_id)
}

/// One scan step of the role-id listing: extending the scanned prefix by
/// one row appends its role id exactly when the row belongs to the user.
proof fn lemma_user_role_ids_step(s: Seq<UserRole>, user_id: u128, i: int)
    requires
        0 <= i < s.len(),
    ensures
        user_role_ids(s.subrange(0, i + 1), user_id) ==
            if s[i].user_id == user_id {
                user_role_ids(s.subrange(0, i), user_id).push(s[i].role_id)
            } else {
                user_role_ids(s.subrange(0, i), user_id)
            },
{
    reveal(Seq::filter);
    let t = s.subrange(0, i);
    let tp = s.subrange(0, i + 1);
    assert(tp.drop_last() =~= t);
    assert(tp.last() == s[i]);
    let pred = |row: UserRole| row.user_id == user_id;
    if pred(s[i]) {
        assert(tp.filter(pred) == t.filter(pred).push(s[i]));
        assert(user_role_ids(tp, user_id)
            =~= user_role_ids(t, user_id).push(s[i].role_id));
    } else {
        assert(tp.filter(pred) == t.filter(pred));
    }
}

} // verus!
