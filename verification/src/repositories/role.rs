//! Repository for the role aggregate.
//!
//! The repository owns the persisted role rows and enforces the table
//! invariants before every write: the sequential id and the name are each
//! unique across the table.

use vstd::prelude::*;

use crate::entities::role::Role;
use crate::errors::AppError;
use crate::models::role::{CreateRoleDTO, RoleResponseDTO, UpdateRoleDTO};

verus! {

/// Some row of `s` has the given name.
pub open spec fn role_name_taken(s: Seq<Role>, name: Seq<char>) -> bool {
    exists |i: int| 0 <= i < s.len() && #[trigger] s[i].name@ == name
}

/// Some row of `s` has the given id.
pub open spec fn role_id_taken(s: Seq<Role>, id: i32) -> bool {
    exists |i: int| 0 <= i < s.len() && #[trigger] s[i].id == id
}

/// Some row of `s` other than the row with id `id` has the given name.
pub open spec fn role_name_taken_by_other(s: Seq<Role>, name: Seq<char>, id: i32) -> bool {
    exists |i: int| 0 <= i < s.len() && #[trigger] s[i].name@ == name && s[i].id != id
}

/// The uniqueness invariants of the role table: no two rows share an id or
/// a name.
pub open spec fn roles_wf(s: Seq<Role>) -> bool {
    forall |i: int, j: int| 0 <= i < s.len() && 0 <= j < s.len() && i != j ==>
        #[trigger] s[i].id != #[trigger] s[j].id
        && s[i].name@ != s[j].name@
}

/// `dto` is the projection of row `r`.
pub open spec fn projects_role(r: Role, dto: RoleResponseDTO) -> bool {
    &&& dto.id == r.id
    &&& dto.name@ == r.name@
}

/// Some row of `s` has id `id` and `dto` is its projection.
pub open spec fn role_found(s: Seq<Role>, id: i32, dto: RoleResponseDTO) -> bool {
    exists |i: int| 0 <= i < s.len() && #[trigger] s[i].id == id && projects_role(s[i], dto)
}

/// Row `post` is row `pre` after a coalesce-on-null update of the name.
pub open spec fn role_updated(pre: Role, post: Role, payload: UpdateRoleDTO) -> bool {
    &&& post.id == pre.id
    &&& post.name@ == (match payload.name {
        Some(n) => n@,
        None => pre.name@,
    })
}


/// The full behaviour of `create_role`.
pub open spec fn create_role_spec(
    pre: RoleRepository,
    post: RoleRepository,
    payload: CreateRoleDTO,
    r: Result<RoleResponseDTO, AppError>,
) -> bool {
    match r {
        Ok(dto) => {
            &&& !role_name_taken(pre@, payload.name@)
            &&& pre.fresh_id() < i32::MAX
            &&& post@.len() == pre@.len() + 1
            &&& post@.subrange(0, pre@.len() as int) =~= pre@
            &&& post@.last().id == pre.fresh_id()
            &&& post@.last().name@ == payload.name@
            &&& projects_role(post@.last(), dto)
            &&& post.fresh_id() == pre.fresh_id() + 1
        },
        Err(e) => post == pre && match e {
            AppError::Conflict => role_name_taken(pre@, payload.name@),
            AppError::InternalServerError(_) => !role_name_taken(pre@, payload.name@)
                && pre.fresh_id() == i32::MAX,
            _ => false,
        },
    }
}

/// The full behaviour of `update_role`.
pub open spec fn update_role_spec(
    pre: RoleRepository,
    post: RoleRepository,
    id: i32,
    payload: UpdateRoleDTO,
    r: Result<RoleResponseDTO, AppError>,
) -> bool {
    match r {
        Ok(dto) => {
            &&& role_id_taken(pre@, id)
            &&& post@.len() == pre@.len()
            &&& post.fresh_id() == pre.fresh_id()
            &&& exists |i: int| 0 <= i < pre@.len() && #[trigger] pre@[i].id == id
                && role_updated(pre@[i], post@[i], payload)
                && projects_role(post@[i], dto)
                && (forall |j: int| 0 <= j < pre@.len() && j != i ==> post@[j] == pre@[j])
        },
        Err(e) => post == pre && match e {
            AppError::NotFound => !role_id_taken(pre@, id),
            AppError::Conflict => role_id_taken(pre@, id)
                && (match payload.name {
                    Some(n) => role_name_taken_by_other(pre@, n@, id),
                    None => false,
                }),
            _ => false,
        },
    }
}

/// The full behaviour of `delete_role`.
pub open spec fn delete_role_spec(
    pre: RoleRepository,
    post: RoleRepository,
    id: i32,
    r: Result<(), AppError>,
) -> bool {
    match r {
        Ok(()) => {
            &&& role_id_taken(pre@, id)
            &&& !role_id_taken(post@, id)
            &&& post.fresh_id() == pre.fresh_id()
            &&& exists |i: int| 0 <= i < pre@.len() && #[trigger] pre@[i].id == id
                && post@ =~= pre@.remove(i)
        },
        Err(e) => post == pre && e is NotFound && !role_id_taken(pre@, id),
    }
}

/// Repository for role rows: the single owner of the persisted role table.
pub struct RoleRepository {
    roles: Vec<Role>,
    next_id: i32,
}

impl View for RoleRepository {
    type V = Seq<Role>;

    /// The persisted table, in insertion order.
    closed spec fn view(&self) -> Seq<Role> {
        self.roles@
    }
}

impl RoleRepository {
    /// The id the next created row will receive.
    pub closed spec fn fresh_id(&self) -> i32 {
        self.next_id
    }

    /// Table invariants: row uniqueness, and every stored id lies below the
    /// next fresh id, so a fresh id never collides.
    pub open spec fn wf(&self) -> bool {
        &&& roles_wf(self@)
        &&& forall |i: int| 0 <= i < self@.len() ==> (#[trigger] self@[i].id) < self.fresh_id()
    }

    /// Creates an empty repository.
    pub fn new() -> (r: Self)
        ensures
            r.wf(),
            r@ =~= Seq::<Role>::empty(),
            r.fresh_id() == 1i32,
    {
        RoleRepository { roles: Vec::new(), next_id: 1 }
    }

    /// Whether some row has the given name.
    pub fn check_if_role_exists(&self, name: &str) -> (r: Result<bool, AppError>)
        ensures
            r == Result::<bool, AppError>::Ok(role_name_taken(self@, name@)),
    {
        let wanted: String = name.to_owned();
        let mut i: usize = 0;
        while i < self.roles.len()
            invariant
                i <= self.roles.len(),
                wanted@ == name@,
                forall |k: int| 0 <= k < i ==> #[trigger] self.roles@[k].name@ != wanted@,
            decreases self.roles.len() - i,
        {
            if self.roles[i].name == wanted {
                return Ok(true);
            }
            i += 1;
        }
        Ok(false)
    }

    /// Whether some row has the given id.
    pub fn check_if_id_exists(&self, id: i32) -> (r: Result<bool, AppError>)
        ensures
            r == Result::<bool, AppError>::Ok(role_id_taken(self@, id)),
    {
        Ok(self.index_of_id(id).is_some())
    }

    /// The position of the row with the given id, if any.
    fn index_of_id(&self, id: i32) -> (r: Option<usize>)
        ensures
            match r {
                Some(i) => i < self@.len() && self@[i as int].id == id,
                None => !role_id_taken(self@, id),
            },
    {
        let mut i: usize = 0;
        while i < self.roles.len()
            invariant
                i <= self.roles.len(),
                forall |k: int| 0 <= k < i ==> #[trigger] self.roles@[k].id != id,
            decreases self.roles.len() - i,
        {
            if self.roles[i].id == id {
                return Some(i);
            }
            i += 1;
        }
        None
    }

    /// Whether some row other than `id` has the given name.
    fn name_clashes(&self, name: &String, id: i32) -> (r: bool)
        ensures
            r == role_name_taken_by_other(self@, name@, id),
    {
        let mut i: usize = 0;
        while i < self.roles.len()
            invariant
                i <= self.roles.len(),
                forall |k: int| 0 <= k < i ==> !(#[trigger] self.roles@[k].name@ == name@
                    && self.roles@[k].id != id),
            decreases self.roles.len() - i,
        {
            if self.roles[i].name == *name && self.roles[i].id != id {
                return true;
            }
            i += 1;
        }
        false
    }

    /// Inserts a new role unless its name is already taken.
    ///
    /// Succeeds exactly when the name is free and the id space is not
    /// exhausted; the created row is appended and its projection returned.
    pub fn create_role(&mut self, payload: CreateRoleDTO) -> (r: Result<RoleResponseDTO, AppError>)
        requires
            old(self).wf(),
        ensures
            final(self).wf(),
            create_role_spec(*old(self), *final(self), payload, r),
    {
        let name_exists = match self.check_if_role_exists(payload.name.as_str()) {
            Ok(b) => b,
            Err(e) => return Err(e),
        };
        if name_exists {
            return Err(AppError::Conflict);
        }
        if self.next_id == i32::MAX {
            return Err(AppError::InternalServerError("role id space exhausted".to_owned()));
        }
        let dto = RoleResponseDTO { id: self.next_id, name: payload.name.clone() };
        self.roles.push(Role { id: self.next_id, name: payload.name });
        self.next_id = self.next_id + 1;
        assert(self@.subrange(0, old(self)@.len() as int) =~= old(self)@);
        Ok(dto)
    }

    /// Returns the projection of the row with the given id, or `NotFound`.
    pub fn get_role_by_id(&self, id: i32) -> (r: Result<RoleResponseDTO, AppError>)
        ensures
            match r {
                Ok(dto) => role_found(self@, id, dto),
                Err(e) => e is NotFound && !role_id_taken(self@, id),
            },
    {
        match self.index_of_id(id) {
            Some(i) => {
                let role = &self.roles[i];
                Ok(RoleResponseDTO { id: role.id, name: role.name.clone() })
            },
            None => Err(AppError::NotFound),
        }
    }

    /// Coalesce-on-null update of the row with the given id.
    ///
    /// Fails with `NotFound` when the id is absent and with `Conflict` when
    /// the supplied name belongs to a different row; otherwise a supplied
    /// name is stored and the post-update projection returned.
    pub fn update_role(&mut self, id: i32, payload: UpdateRoleDTO) -> (r: Result<RoleResponseDTO, AppError>)
        requires
            old(self).wf(),
        ensures
            final(self).wf(),
            update_role_spec(*old(self), *final(self), id, payload, r),
    {
        let i = match self.index_of_id(id) {
            Some(i) => i,
            None => return Err(AppError::NotFound),
        };
        let conflict = match &payload.name {
            Some(n) => self.name_clashes(n, id),
            None => false,
        };
        if conflict {
            return Err(AppError::Conflict);
        }
        let role = &mut self.roles[i];
        match payload.name {
            Some(n) => { role.name = n; },
            None => {},
        }
        let dto = RoleResponseDTO { id: role.id, name: role.name.clone() };
        proof {
            let s0 = old(self)@;
            let s1 = self@;
            assert(role_updated(s0[i as int], s1[i as int], payload));
            assert forall |x: int, y: int| 0 <= x < s1.len() && 0 <= y < s1.len() && x != y
                implies s1[x].id != s1[y].id && s1[x].name@ != s1[y].name@ by {
                if x != i && y != i {
                    assert(s1[x] == s0[x] && s1[y] == s0[y]);
                }
            }
        }
        Ok(dto)
    }

    /// Deletes the row with the given id, or fails with `NotFound`.
    pub fn delete_role(&mut self, id: i32) -> (r: Result<(), AppError>)
        requires
            old(self).wf(),
        ensures
            final(self).wf(),
            delete_role_spec(*old(self), *final(self), id, r),
    {
        let i = match self.index_of_id(id) {
            Some(i) => i,
            None => return Err(AppError::NotFound),
        };
        self.roles.remove(i);
        proof {
            let s0 = old(self)@;
            let s1 = self@;
            assert(s1 =~= s0.remove(i as int));
            assert forall |k: int| 0 <= k < s1.len() implies #[trigger] s1[k].id != id by {
                if k < i {
                    assert(s1[k] == s0[k]);
                } else {
                    assert(s1[k] == s0[k + 1]);
                }
            }
            assert forall |x: int, y: int| 0 <= x < s1.len() && 0 <= y < s1.len() && x != y
                implies s1[x].id != s1[y].id && s1[x].name@ != s1[y].name@ by {
                let x0: int = if x < i { x } else { x + 1 };
                let y0: int = if y < i { y } else { y + 1 };
                assert(s1[x] == s0[x0] && s1[y] == s0[y0]);
            }
            assert forall |k: int| 0 <= k < s1.len()
                implies (#[trigger] s1[k].id) < self.fresh_id() by {
                if k < i {
                    assert(s1[k] == s0[k]);
                } else {
                    assert(s1[k] == s0[k + 1]);
                }
            }
        }
        Ok(())
    }

    /// Returns the projection of every row, in table order.
    pub fn get_roles(&self) -> (r: Result<Vec<RoleResponseDTO>, AppError>)
        ensures
            match r {
                Ok(v) => v@.len() == self@.len()
                    && forall |i: int| 0 <= i < self@.len()
                        ==> projects_role(self@[i], #[trigger] v@[i]),
                Err(_) => false,
            },
    {
        let mut out: Vec<RoleResponseDTO> = Vec::new();
        let mut i: usize = 0;
        while i < self.roles.len()
            invariant
                i <= self.roles.len(),
                out@.len() == i,
                forall |k: int| 0 <= k < i ==> projects_role(self.roles@[k], #[trigger] out@[k]),
            decreases self.roles.len() - i,
        {
            let role = &self.roles[i];
            out.push(RoleResponseDTO { id: role.id, name: role.name.clone() });
            i += 1;
        }
        Ok(out)
    }
}

} // verus!
