//! Repository for the store-to-user relationship.
//!
//! Before access is granted both referenced aggregate ids must exist —
//! the store in the store table, the user in the user table — and the
//! (store id, user id) pair must not already be present.

use vstd::prelude::*;

use crate::entities::store_users::StoreUsers;
use crate::errors::AppError;
use crate::repositories::store::{store_id_taken, StoreRepository};
use crate::repositories::user::{user_id_taken, UserRepository};

verus! {

/// Some row of `s` grants the given user access to the given store.
pub open spec fn access_taken(s: Seq<StoreUsers>, store_id: i32, user_id: u128) -> bool {
    exists |i: int| 0 <= i < s.len() && #[trigger] s[i].store_id == store_id
        && s[i].user_id == user_id
}

/// The uniqueness invariant of the table: no two rows share the
/// (store id, user id) pair.
pub open spec fn store_users_wf(s: Seq<StoreUsers>) -> bool {
    forall |i: int, j: int| 0 <= i < s.len() && 0 <= j < s.len() && i != j ==>
        !((#[trigger] s[i].store_id == #[trigger] s[j].store_id)
            && s[i].user_id == s[j].user_id)
}

/// Repository for store-user rows: the single owner of the persisted
/// access table.
pub struct StoreUsersRepository {
    store_users: Vec<StoreUsers>,
}

impl View for StoreUsersRepository {
    type V = Seq<StoreUsers>;

    /// The persisted table, in insertion order.
    closed spec fn view(&self) -> Seq<StoreUsers> {
        self.store_users@
    }
}

impl StoreUsersRepository {
    /// The table invariant: pair uniqueness.
    pub open spec fn wf(&self) -> bool {
        store_users_wf(self@)
    }

    /// Creates an empty repository.
    pub fn new() -> (r: Self)
        ensures
            r.wf(),
            r@ =~= Seq::<StoreUsers>::empty(),
    {
        StoreUsersRepository { store_users: Vec::new() }
    }

    /// Whether some row grants the given user access to the given store.
    pub fn check_if_access_exists(&self, store_id: i32, user_id: u128) -> (r: Result<bool, AppError>)
        ensures
            r == Result::<bool, AppError>::Ok(access_taken(self@, store_id, user_id)),
    {
        Ok(self.index_of_pair(store_id, user_id).is_some())
    }

    /// The position of the row with the given pair, if any.
    fn index_of_pair(&self, store_id: i32, user_id: u128) -> (r: Option<usize>)
        ensures
            match r {
                Some(i) => i < self@.len() && self@[i as int].store_id == store_id
                    && self@[i as int].user_id == user_id,
                None => !access_taken(self@, store_id, user_id),
            },
    {
        let mut i: usize = 0;
        while i < self.store_users.len()
            invariant
                i <= self.store_users.len(),
                forall |k: int| 0 <= k < i
                    ==> !((#[trigger] self.store_users@[k].store_id) == store_id
                        && self.store_users@[k].user_id == user_id),
            decreases self.store_users.len() - i,
        {
            if self.store_users[i].store_id == store_id && self.store_users[i].user_id == user_id {
                return Some(i);
            }
            i += 1;
        }
        None
    }

    /// Grants a user access to a store.
    ///
    /// Fails with `NotFound` unless both referenced aggregates exist, with
    /// `Conflict` when the access is already granted; otherwise the grant
    /// is appended.
    pub fn add_store_user(
        &mut self,
        stores: &StoreRepository,
        users: &UserRepository,
        store_id: i32,
        user_id: u128,
    ) -> (r: Result<(), AppError>)
        requires
            old(self).wf(),
        ensures
            final(self).wf(),
            match r {
                Ok(()) => {
                    &&& store_id_taken(stores@, store_id)
                    &&& user_id_taken(users@, user_id)
                    &&& !access_taken(old(self)@, store_id, user_id)
                    &&& final(self)@.len() == old(self)@.len() + 1
                    &&& final(self)@.subrange(0, old(self)@.len() as int) =~= old(self)@
                    &&& final(self)@.last().store_id == store_id
                    &&& final(self)@.last().user_id == user_id
                },
                Err(e) => *final(self) == *old(self) && match e {
                    AppError::NotFound => !store_id_taken(stores@, store_id)
                        || !user_id_taken(users@, user_id),
                    AppError::Conflict => store_id_taken(stores@, store_id)
                        && user_id_taken(users@, user_id)
                        && access_taken(old(self)@, store_id, user_id),
                    _ => false,
                },
            },
    {
        let store_exists = match stores.check_if_id_exists(store_id) {
            Ok(b) => b,
            Err(e) => return Err(e),
        };
        let user_exists = match users.check_if_id_exists(user_id) {
            Ok(b) => b,
            Err(e) => return Err(e),
        };
        if !store_exists || !user_exists {
            return Err(AppError::NotFound);
        }
        let access_exists = match self.check_if_access_exists(store_id, user_id) {
            Ok(b) => b,
            Err(e) => return Err(e),
        };
        if access_exists {
            return Err(AppError::Conflict);
        }
        self.store_users.push(StoreUsers { store_id, user_id });
        proof {
            let s0 = old(self)@;
            let s1 = self@;
            assert(s1.subrange(0, s0.len() as int) =~= s0);
            assert forall |x: int, y: int| 0 <= x < s1.len() && 0 <= y < s1.len() && x != y
                implies !(s1[x].store_id == s1[y].store_id && s1[x].user_id == s1[y].user_id) by {
                if x < s0.len() && y < s0.len() {
                    assert(s1[x] == s0[x] && s1[y] == s0[y]);
                } else if x < s0.len() {
                    assert(s1[x] == s0[x] && s1[y] == s1.last());
                } else {
                    assert(s1[x] == s1.last() && s1[y] == s0[y]);
                }
            }
        }
        Ok(())
    }

    /// Revokes a user's access to a store, or fails with `NotFound` when
    /// no such access is granted.
    pub fn remove_store_user(&mut self, store_id: i32, user_id: u128) -> (r: Result<(), AppError>)
        requires
            old(self).wf(),
        ensures
            final(self).wf(),
            match r {
                Ok(()) => {
                    &&& access_taken(old(self)@, store_id, user_id)
                    &&& !access_taken(final(self)@, store_id, user_id)
                    &&& exists |i: int| 0 <= i < old(self)@.len()
                        && (#[trigger] old(self)@[i].store_id) == store_id
                        && old(self)@[i].user_id == user_id
                        && final(self)@ =~= old(self)@.remove(i)
                },
                Err(e) => *final(self) == *old(self) && e is NotFound
                    && !access_taken(old(self)@, store_id, user_id),
            },
    {
        let i = match self.index_of_pair(store_id, user_id) {
            Some(i) => i,
            None => return Err(AppError::NotFound),
        };
        self.store_users.remove(i);
        proof {
            let s0 = old(self)@;
            let s1 = self@;
            assert(s1 =~= s0.remove(i as int));
            assert forall |k: int| 0 <= k < s1.len()
                implies !((#[trigger] s1[k].store_id) == store_id
                    && s1[k].user_id == user_id) by {
                if k < i {
                    assert(s1[k] == s0[k]);
                } else {
                    assert(s1[k] == s0[k + 1]);
                }
            }
            assert forall |x: int, y: int| 0 <= x < s1.len() && 0 <= y < s1.len() && x != y
                implies !(s1[x].store_id == s1[y].store_id && s1[x].user_id == s1[y].user_id) by {
                let x0: int = if x < i { x } else { x + 1 };
                let y0: int = if y < i { y } else { y + 1 };
                assert(s1[x] == s0[x0] && s1[y] == s0[y0]);
            }
        }
        Ok(())
    }
}

} // verus!
