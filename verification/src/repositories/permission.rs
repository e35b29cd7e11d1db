//! Repository for the permission aggregate.
//!
//! A permission row grants a capability set over one named entity. The
//! table places no uniqueness constraint on the entity name: several rows
//! may target the same entity, and they combine by union — any row that
//! grants a capability suffices. Only the sequential id is unique.

use vstd::prelude::*;

use crate::entities::permission::{Capability, Permission};
use crate::errors::AppError;

verus! {

/// Some row of `s` has the given id.
pub open spec fn permission_id_taken(s: Seq<Permission>, id: i32) -> bool {
    exists |i: int| 0 <= i < s.len() && #[trigger] s[i].id == id
}

/// The row of `s` with id `pid` is scoped to the given entity name and
/// grants the capability.
pub open spec fn permission_grants(s: Seq<Permission>, pid: i32, entity: Seq<char>, c: Capability) -> bool {
    exists |i: int| 0 <= i < s.len() && (#[trigger] s[i].id) == pid
        && s[i].entity_name@ == entity && flag_of(s[i], c)
}

/// The uniqueness invariant of the permission table: no two rows share an
/// id.
pub open spec fn permissions_wf(s: Seq<Permission>) -> bool {
    forall |i: int, j: int| 0 <= i < s.len() && 0 <= j < s.len() && i != j ==>
        #[trigger] s[i].id != #[trigger] s[j].id
}

/// Repository for permission rows: the single owner of the persisted
/// permission table.
pub struct PermissionRepository {
    permissions: Vec<Permission>,
    next_id: i32,
}

impl View for PermissionRepository {
    type V = Seq<Permission>;

    /// The persisted table, in insertion order.
    closed spec fn view(&self) -> Seq<Permission> {
        self.permissions@
    }
}

impl PermissionRepository {
    /// The id the next created row will receive.
    pub closed spec fn fresh_id(&self) -> i32 {
        self.next_id
    }

    /// Table invariants: id uniqueness, and every stored id lies below the
    /// next fresh id.
    pub open spec fn wf(&self) -> bool {
        &&& permissions_wf(self@)
        &&& forall |i: int| 0 <= i < self@.len() ==> (#[trigger] self@[i].id) < self.fresh_id()
    }

    /// Creates an empty repository.
    pub fn new() -> (r: Self)
        ensures
            r.wf(),
            r@ =~= Seq::<Permission>::empty(),
            r.fresh_id() == 1i32,
    {
        PermissionRepository { permissions: Vec::new(), next_id: 1 }
    }

    /// Whether some row has the given id.
    pub fn check_if_id_exists(&self, id: i32) -> (r: Result<bool, AppError>)
        ensures
            r == Result::<bool, AppError>::Ok(permission_id_taken(self@, id)),
    {
        let mut i: usize = 0;
        while i < self.permissions.len()
            invariant
                i <= self.permissions.len(),
                forall |k: int| 0 <= k < i ==> #[trigger] self.permissions@[k].id != id,
            decreases self.permissions.len() - i,
        {
            if self.permissions[i].id == id {
                return Ok(true);
            }
            i += 1;
        }
        Ok(false)
    }

    /// Inserts a new permission row for the given entity name and
    /// capability flags, and returns the created row.
    ///
    /// Succeeds exactly when the id space is not exhausted; entity names
    /// are deliberately not required to be unique.
    pub fn create_permission(
        &mut self,
        entity_name: String,
        can_read: bool,
        can_write: bool,
        can_delete: bool,
        can_update: bool,
    ) -> (r: Result<Permission, AppError>)
        requires
            old(self).wf(),
        ensures
            final(self).wf(),
            match r {
                Ok(p) => {
                    &&& old(self).fresh_id() < i32::MAX
                    &&& final(self)@.len() == old(self)@.len() + 1
                    &&& final(self)@.subrange(0, old(self)@.len() as int) =~= old(self)@
                    &&& final(self)@.last() == p
                    &&& p.id == old(self).fresh_id()
                    &&& p.entity_name@ == entity_name@
                    &&& p.can_read == can_read && p.can_write == can_write
                    &&& p.can_delete == can_delete && p.can_update == can_update
                    &&& final(self).fresh_id() == old(self).fresh_id() + 1
                },
                Err(e) => *final(self) == *old(self)
                    && e is InternalServerError
                    && old(self).fresh_id() == i32::MAX,
            },
    {
        if self.next_id == i32::MAX {
            return Err(AppError::InternalServerError("permission id space exhausted".to_owned()));
        }
        let p = Permission {
            id: self.next_id,
            entity_name,
            can_read,
            can_write,
            can_delete,
            can_update,
        };
        let copy = Permission {
            id: p.id,
            entity_name: p.entity_name.clone(),
            can_read: p.can_read,
            can_write: p.can_write,
            can_delete: p.can_delete,
            can_update: p.can_update,
        };
        proof {
            assert(copy == p);
        }
        self.permissions.push(p);
        self.next_id = self.next_id + 1;
        assert(self@.subrange(0, old(self)@.len() as int) =~= old(self)@);
        Ok(copy)
    }

    /// Whether the row with the given id is scoped to the given entity
    /// name and grants the capability.
    pub(crate) fn grants(&self, id: i32, entity: &String, capability: Capability) -> (r: bool)
        ensures
            r == permission_grants(self@, id, entity@, capability),
    {
        let mut i: usize = 0;
        while i < self.permissions.len()
            invariant
                i <= self.permissions.len(),
                forall |k: int| 0 <= k < i ==> !((#[trigger] self.permissions@[k].id) == id
                    && self.permissions@[k].entity_name@ == entity@
                    && flag_of(self.permissions@[k], capability)),
            decreases self.permissions.len() - i,
        {
            let p = &self.permissions[i];
            let flag = match capability {
                Capability::Read => p.can_read,
                Capability::Write => p.can_write,
                Capability::Delete => p.can_delete,
                Capability::Update => p.can_update,
            };
            if p.id == id && p.entity_name == *entity && flag {
                proof {
                    assert((self@[i as int].id) == id
                        && self@[i as int].entity_name@ == entity@
                        && flag_of(self@[i as int], capability));
                }
                return true;
            }
            i += 1;
        }
        false
    }
}

/// The capability flag of row `p` that `capability` selects.
pub open spec fn flag_of(p: Permission, capability: Capability) -> bool {
    match capability {
        Capability::Read => p.can_read,
        Capability::Write => p.can_write,
        Capability::Delete => p.can_delete,
        Capability::Update => p.can_update,
    }
}

} // verus!
