//! Repository for the user aggregate.
//!
//! The repository owns the persisted user rows and enforces the table
//! invariants before every write: the id, the username, and the email are
//! each unique across the table. Every failure is classified: `Conflict`
//! when a uniqueness invariant already holds, `NotFound` when the id is
//! absent, `InternalServerError` when the id space is exhausted.

use vstd::prelude::*;

use crate::clock;
use crate::entities::user::User;
use crate::errors::AppError;
use crate::models::user::{CreateUserDTO, UpdateUserDTO, UserResponseDTO};

verus! {

/// Some row of `s` has the given username.
pub open spec fn username_taken(s: Seq<User>, name: Seq<char>) -> bool {
    exists |i: int| 0 <= i < s.len() && #[trigger] s[i].username@ == name
}

/// Some row of `s` has the given email.
pub open spec fn email_taken(s: Seq<User>, email: Seq<char>) -> bool {
    exists |i: int| 0 <= i < s.len() && #[trigger] s[i].email@ == email
}

/// Some row of `s` has the given id.
pub open spec fn user_id_taken(s: Seq<User>, id: u128) -> bool {
    exists |i: int| 0 <= i < s.len() && #[trigger] s[i].id == id
}

/// Some row of `s` has the given id and is active.
pub open spec fn user_active(s: Seq<User>, id: u128) -> bool {
    exists |i: int| 0 <= i < s.len() && #[trigger] s[i].id == id && s[i].is_active
}

/// Some row of `s` other than the row with id `id` has the given username.
pub open spec fn username_taken_by_other(s: Seq<User>, name: Seq<char>, id: u128) -> bool {
    exists |i: int| 0 <= i < s.len() && #[trigger] s[i].username@ == name && s[i].id != id
}

/// Some row of `s` other than the row with id `id` has the given email.
pub open spec fn email_taken_by_other(s: Seq<User>, email: Seq<char>, id: u128) -> bool {
    exists |i: int| 0 <= i < s.len() && #[trigger] s[i].email@ == email && s[i].id != id
}

/// The uniqueness invariants of the user table: no two rows share an id, a
/// username, or an email.
pub open spec fn users_wf(s: Seq<User>) -> bool {
    forall |i: int, j: int| 0 <= i < s.len() && 0 <= j < s.len() && i != j ==>
        #[trigger] s[i].id != #[trigger] s[j].id
        && s[i].username@ != s[j].username@
        && s[i].email@ != s[j].email@
}

/// `dto` is the projection of row `u`: id, username and email are echoed;
/// the credential has no counterpart, so it is never echoed.
pub open spec fn projects_user(u: User, dto: UserResponseDTO) -> bool {
    &&& dto.id == u.id
    &&& dto.username@ == u.username@
    &&& dto.email@ == u.email@
}

/// Some row of `s` has id `id` and `dto` is its projection.
pub open spec fn user_found(s: Seq<User>, id: u128, dto: UserResponseDTO) -> bool {
    exists |i: int| 0 <= i < s.len() && #[trigger] s[i].id == id && projects_user(s[i], dto)
}

/// Row `u` is what `create` persists for `payload` under id `id`: the
/// payload fields are stored as given, the row starts active, and the two
/// timestamps agree (their value is whatever the clock returned).
pub open spec fn user_created(u: User, id: u128, payload: CreateUserDTO) -> bool {
    &&& u.id == id
    &&& u.username@ == payload.username@
    &&& u.email@ == payload.email@
    &&& u.password@ == payload.password@
    &&& u.is_active == true
    &&& u.created_at == u.updated_at
}

/// Row `post` is row `pre` after a coalesce-on-null update: each supplied
/// field is overwritten, each omitted field keeps its stored value, the id,
/// the active flag and the creation timestamp never change. The update
/// timestamp is refreshed from the clock, so its value is not constrained.
pub open spec fn user_updated(pre: User, post: User, payload: UpdateUserDTO) -> bool {
    &&& post.id == pre.id
    &&& post.username@ == (match payload.username {
        Some(u) => u@,
        None => pre.username@,
    })
    &&& post.email@ == (match payload.email {
        Some(e) => e@,
        None => pre.email@,
    })
    &&& post.password@ == (match payload.password {
        Some(p) => p@,
        None => pre.password@,
    })
    &&& post.is_active == pre.is_active
    &&& post.created_at == pre.created_at
}

/// Row `post` is row `pre` with the active flag set to `active` and every
/// other field unchanged.
pub open spec fn active_toggled(pre: User, post: User, active: bool) -> bool {
    &&& post.id == pre.id
    &&& post.username@ == pre.username@
    &&& post.email@ == pre.email@
    &&& post.password@ == pre.password@
    &&& post.created_at == pre.created_at
    &&& post.updated_at == pre.updated_at
    &&& post.is_active == active
}

/// The update `payload` would collide with a row other than `id`.
pub open spec fn update_conflict(s: Seq<User>, id: u128, payload: UpdateUserDTO) -> bool {
    ||| match payload.username {
        Some(u) => username_taken_by_other(s, u@, id),
        None => false,
    }
    ||| match payload.email {
        Some(e) => email_taken_by_other(s, e@, id),
        None => false,
    }
}


/// The full behaviour of `create_user`: how the post-state and the result
/// relate to the pre-state and the payload.
pub open spec fn create_user_spec(
    pre: UserRepository,
    post: UserRepository,
    payload: CreateUserDTO,
    r: Result<UserResponseDTO, AppError>,
) -> bool {
    match r {
        Ok(dto) => {
            &&& !username_taken(pre@, payload.username@)
            &&& !email_taken(pre@, payload.email@)
            &&& pre.fresh_id() < u128::MAX
            &&& post@.len() == pre@.len() + 1
            &&& post@.subrange(0, pre@.len() as int) =~= pre@
            &&& user_created(post@.last(), pre.fresh_id(), payload)
            &&& projects_user(post@.last(), dto)
            &&& post.fresh_id() == pre.fresh_id() + 1
        },
        Err(e) => post == pre && match e {
            AppError::Conflict => username_taken(pre@, payload.username@)
                || email_taken(pre@, payload.email@),
            AppError::InternalServerError(_) => !username_taken(pre@, payload.username@)
                && !email_taken(pre@, payload.email@)
                && pre.fresh_id() == u128::MAX,
            _ => false,
        },
    }
}

/// The full behaviour of `update_user`.
pub open spec fn update_user_spec(
    pre: UserRepository,
    post: UserRepository,
    id: u128,
    payload: UpdateUserDTO,
    r: Result<UserResponseDTO, AppError>,
) -> bool {
    match r {
        Ok(dto) => {
            &&& user_id_taken(pre@, id)
            &&& !update_conflict(pre@, id, payload)
            &&& post@.len() == pre@.len()
            &&& post.fresh_id() == pre.fresh_id()
            &&& exists |i: int| 0 <= i < pre@.len() && #[trigger] pre@[i].id == id
                && user_updated(pre@[i], post@[i], payload)
                && projects_user(post@[i], dto)
                && (forall |j: int| 0 <= j < pre@.len() && j != i ==> post@[j] == pre@[j])
        },
        Err(e) => post == pre && match e {
            AppError::NotFound => !user_id_taken(pre@, id),
            AppError::Conflict => user_id_taken(pre@, id) && update_conflict(pre@, id, payload),
            _ => false,
        },
    }
}

/// The full behaviour of `delete_user`.
pub open spec fn delete_user_spec(
    pre: UserRepository,
    post: UserRepository,
    id: u128,
    r: Result<(), AppError>,
) -> bool {
    match r {
        Ok(()) => {
            &&& user_id_taken(pre@, id)
            &&& !user_id_taken(post@, id)
            &&& post.fresh_id() == pre.fresh_id()
            &&& exists |i: int| 0 <= i < pre@.len() && #[trigger] pre@[i].id == id
                && post@ =~= pre@.remove(i)
        },
        Err(e) => post == pre && e is NotFound && !user_id_taken(pre@, id),
    }
}

/// The full behaviour of `set_active`.
pub open spec fn set_active_spec(
    pre: UserRepository,
    post: UserRepository,
    id: u128,
    active: bool,
    r: Result<(), AppError>,
) -> bool {
    match r {
        Ok(()) => {
            &&& user_id_taken(pre@, id)
            &&& post@.len() == pre@.len()
            &&& post.fresh_id() == pre.fresh_id()
            &&& exists |i: int| 0 <= i < pre@.len() && #[trigger] pre@[i].id == id
                && active_toggled(pre@[i], post@[i], active)
                && (forall |j: int| 0 <= j < pre@.len() && j != i ==> post@[j] == pre@[j])
        },
        Err(e) => post == pre && e is NotFound && !user_id_taken(pre@, id),
    }
}

/// A field-by-field copy of a row, so that contracts see the copy equal
/// the row it was taken from.
fn clone_user(u: &User) -> (r: User)
    ensures
        r == *u,
{
    User {
        id: u.id,
        username: u.username.clone(),
        password: u.password.clone(),
        email: u.email.clone(),
        created_at: u.created_at,
        updated_at: u.updated_at,
        is_active: u.is_active,
    }
}

/// Repository for user rows: the single owner of the persisted user table.
pub struct UserRepository {
    users: Vec<User>,
    next_id: u128,
}

impl View for UserRepository {
    type V = Seq<User>;

    /// The persisted table, in insertion order.
    closed spec fn view(&self) -> Seq<User> {
        self.users@
    }
}

impl UserRepository {
    /// The id the next created row will receive.
    pub closed spec fn fresh_id(&self) -> u128 {
        self.next_id
    }

    /// Table invariants: row uniqueness, and every stored id lies below the
    /// next fresh id, so a fresh id never collides.
    pub open spec fn wf(&self) -> bool {
        &&& users_wf(self@)
        &&& forall |i: int| 0 <= i < self@.len() ==> (#[trigger] self@[i].id) < self.fresh_id()
    }

    /// Creates an empty repository.
    pub fn new() -> (r: Self)
        ensures
            r.wf(),
            r@ =~= Seq::<User>::empty(),
            r.fresh_id() == 1u128,
    {
        UserRepository { users: Vec::new(), next_id: 1 }
    }

    /// Whether some row has the given username.
    pub fn check_if_username_exists(&self, username: &str) -> (r: Result<bool, AppError>)
        ensures
            r == Result::<bool, AppError>::Ok(username_taken(self@, username@)),
    {
        let name: String = username.to_owned();
        let mut i: usize = 0;
        while i < self.users.len()
            invariant
                i <= self.users.len(),
                name@ == username@,
                forall |k: int| 0 <= k < i ==> #[trigger] self.users@[k].username@ != name@,
            decreases self.users.len() - i,
        {
            if self.users[i].username == name {
                return Ok(true);
            }
            i += 1;
        }
        Ok(false)
    }

    /// Whether some row has the given email.
    pub fn check_if_email_exists(&self, email: &str) -> (r: Result<bool, AppError>)
        ensures
            r == Result::<bool, AppError>::Ok(email_taken(self@, email@)),
    {
        let wanted: String = email.to_owned();
        let mut i: usize = 0;
        while i < self.users.len()
            invariant
                i <= self.users.len(),
                wanted@ == email@,
                forall |k: int| 0 <= k < i ==> #[trigger] self.users@[k].email@ != wanted@,
            decreases self.users.len() - i,
        {
            if self.users[i].email == wanted {
                return Ok(true);
            }
            i += 1;
        }
        Ok(false)
    }

    /// Whether some row has the given id.
    pub fn check_if_id_exists(&self, id: u128) -> (r: Result<bool, AppError>)
        ensures
            r == Result::<bool, AppError>::Ok(user_id_taken(self@, id)),
    {
        Ok(self.index_of_id(id).is_some())
    }

    /// The position of the row with the given id, if any.
    fn index_of_id(&self, id: u128) -> (r: Option<usize>)
        ensures
            match r {
                Some(i) => i < self@.len() && self@[i as int].id == id,
                None => !user_id_taken(self@, id),
            },
    {
        let mut i: usize = 0;
        while i < self.users.len()
            invariant
                i <= self.users.len(),
                forall |k: int| 0 <= k < i ==> #[trigger] self.users@[k].id != id,
            decreases self.users.len() - i,
        {
            if self.users[i].id == id {
                return Some(i);
            }
            i += 1;
        }
        None
    }

    /// Whether some row other than `id` has the given username.
    fn username_clashes(&self, name: &String, id: u128) -> (r: bool)
        ensures
            r == username_taken_by_other(self@, name@, id),
    {
        let mut i: usize = 0;
        while i < self.users.len()
            invariant
                i <= self.users.len(),
                forall |k: int| 0 <= k < i ==> !(#[trigger] self.users@[k].username@ == name@
                    && self.users@[k].id != id),
            decreases self.users.len() - i,
        {
            if self.users[i].username == *name && self.users[i].id != id {
                return true;
            }
            i += 1;
        }
        false
    }

    /// Whether some row other than `id` has the given email.
    fn email_clashes(&self, email: &String, id: u128) -> (r: bool)
        ensures
            r == email_taken_by_other(self@, email@, id),
    {
        let mut i: usize = 0;
        while i < self.users.len()
            invariant
                i <= self.users.len(),
                forall |k: int| 0 <= k < i ==> !(#[trigger] self.users@[k].email@ == email@
                    && self.users@[k].id != id),
            decreases self.users.len() - i,
        {
            if self.users[i].email == *email && self.users[i].id != id {
                return true;
            }
            i += 1;
        }
        false
    }

    /// Inserts a new user unless a uniqueness invariant already holds.
    ///
    /// Succeeds exactly when neither the username nor the email is taken
    /// and the id space is not exhausted; the created row is appended and
    /// its projection — without the credential — is returned.
    pub fn create_user(&mut self, payload: CreateUserDTO) -> (r: Result<UserResponseDTO, AppError>)
        requires
            old(self).wf(),
        ensures
            final(self).wf(),
            create_user_spec(*old(self), *final(self), payload, r),
    {
        let email_exists = match self.check_if_email_exists(payload.email.as_str()) {
            Ok(b) => b,
            Err(e) => return Err(e),
        };
        let username_exists = match self.check_if_username_exists(payload.username.as_str()) {
            Ok(b) => b,
            Err(e) => return Err(e),
        };
        if email_exists || username_exists {
            return Err(AppError::Conflict);
        }
        if self.next_id == u128::MAX {
            return Err(AppError::InternalServerError("user id space exhausted".to_owned()));
        }
        let t = clock::now_millis();
        let dto = UserResponseDTO {
            id: self.next_id,
            username: payload.username.clone(),
            email: payload.email.clone(),
        };
        let user = User {
            id: self.next_id,
            username: payload.username,
            password: payload.password,
            email: payload.email,
            created_at: t,
            updated_at: t,
            is_active: true,
        };
        self.users.push(user);
        self.next_id = self.next_id + 1;
        assert(self@.subrange(0, old(self)@.len() as int) =~= old(self)@);
        Ok(dto)
    }

    /// Returns the projection of the row with the given id, or `NotFound`.
    pub fn get_user_by_id(&self, id: u128) -> (r: Result<UserResponseDTO, AppError>)
        ensures
            match r {
                Ok(dto) => user_found(self@, id, dto),
                Err(e) => e is NotFound && !user_id_taken(self@, id),
            },
    {
        match self.index_of_id(id) {
            Some(i) => {
                let u = &self.users[i];
                Ok(UserResponseDTO {
                    id: u.id,
                    username: u.username.clone(),
                    email: u.email.clone(),
                })
            },
            None => Err(AppError::NotFound),
        }
    }

    /// Coalesce-on-null update of the row with the given id.
    ///
    /// Fails with `NotFound` when the id is absent and with `Conflict` when
    /// a supplied username or email belongs to a different row; otherwise
    /// each supplied field is overwritten, each omitted one kept, and the
    /// post-update projection returned.
    pub fn update_user(&mut self, id: u128, payload: UpdateUserDTO) -> (r: Result<UserResponseDTO, AppError>)
        requires
            old(self).wf(),
        ensures
            final(self).wf(),
            update_user_spec(*old(self), *final(self), id, payload, r),
    {
        let i = match self.index_of_id(id) {
            Some(i) => i,
            None => return Err(AppError::NotFound),
        };
        let username_conflict = match &payload.username {
            Some(u) => self.username_clashes(u, id),
            None => false,
        };
        let email_conflict = match &payload.email {
            Some(e) => self.email_clashes(e, id),
            None => false,
        };
        let conflict = username_conflict || email_conflict;
        if conflict {
            return Err(AppError::Conflict);
        }
        let t = clock::now_millis();
        let u = &mut self.users[i];
        match payload.username {
            Some(name) => { u.username = name; },
            None => {},
        }
        match payload.email {
            Some(email) => { u.email = email; },
            None => {},
        }
        match payload.password {
            Some(password) => { u.password = password; },
            None => {},
        }
        u.updated_at = t;
        let dto = UserResponseDTO {
            id: u.id,
            username: u.username.clone(),
            email: u.email.clone(),
        };
        proof {
            let s0 = old(self)@;
            let s1 = self@;
            assert(s1[i as int].id == id);
            assert(user_updated(s0[i as int], s1[i as int], payload));
            assert forall |x: int, y: int| 0 <= x < s1.len() && 0 <= y < s1.len() && x != y
                implies s1[x].id != s1[y].id
                    && s1[x].username@ != s1[y].username@
                    && s1[x].email@ != s1[y].email@ by {
                assert(s0[x].id != s0[y].id);
                if x != i && y != i {
                    assert(s1[x] == s0[x] && s1[y] == s0[y]);
                }
            }
        }
        Ok(dto)
    }

    /// Deletes the row with the given id, or fails with `NotFound`.
    ///
    /// Over this store the existence check and the removal are one atomic
    /// step, so the removal can never report zero rows once the check has
    /// passed; the re-check after the mutation that a two-statement store
    /// would need has nothing left to catch.
    pub fn delete_user(&mut self, id: u128) -> (r: Result<(), AppError>)
        requires
            old(self).wf(),
        ensures
            final(self).wf(),
            delete_user_spec(*old(self), *final(self), id, r),
    {
        let i = match self.index_of_id(id) {
            Some(i) => i,
            None => return Err(AppError::NotFound),
        };
        self.users.remove(i);
        proof {
            let s0 = old(self)@;
            let s1 = self@;
            assert(s1 =~= s0.remove(i as int));
            assert forall |k: int| 0 <= k < s1.len() implies #[trigger] s1[k].id != id by {
                if k < i {
                    assert(s1[k] == s0[k]);
                } else {
                    assert(s1[k] == s0[k + 1]);
                }
            }
        }
        Ok(())
    }

    /// Returns the projection of every row, in table order.
    pub fn get_all_users(&self) -> (r: Result<Vec<UserResponseDTO>, AppError>)
        ensures
            match r {
                Ok(v) => v@.len() == self@.len()
                    && forall |i: int| 0 <= i < self@.len()
                        ==> projects_user(self@[i], #[trigger] v@[i]),
                Err(_) => false,
            },
    {
        let mut out: Vec<UserResponseDTO> = Vec::new();
        let mut i: usize = 0;
        while i < self.users.len()
            invariant
                i <= self.users.len(),
                out@.len() == i,
                forall |k: int| 0 <= k < i ==> projects_user(self.users@[k], #[trigger] out@[k]),
            decreases self.users.len() - i,
        {
            let u = &self.users[i];
            out.push(UserResponseDTO {
                id: u.id,
                username: u.username.clone(),
                email: u.email.clone(),
            });
            i += 1;
        }
        Ok(out)
    }

    /// Sets the active flag of the row with the given id, or `NotFound`.
    ///
    /// This is the privileged activation toggle: nothing else about the row
    /// changes, and in particular its role, permission, and hierarchy
    /// associations are preserved.
    pub fn set_active(&mut self, id: u128, active: bool) -> (r: Result<(), AppError>)
        requires
            old(self).wf(),
        ensures
            final(self).wf(),
            set_active_spec(*old(self), *final(self), id, active, r),
    {
        let i = match self.index_of_id(id) {
            Some(i) => i,
            None => return Err(AppError::NotFound),
        };
        let u = &mut self.users[i];
        u.is_active = active;
        proof {
            let s0 = old(self)@;
            let s1 = self@;
            assert(active_toggled(s0[i as int], s1[i as int], active));
            assert forall |x: int, y: int| 0 <= x < s1.len() && 0 <= y < s1.len() && x != y
                implies s1[x].id != s1[y].id
                    && s1[x].username@ != s1[y].username@
                    && s1[x].email@ != s1[y].email@ by {
                if x != i && y != i {
                    assert(s1[x] == s0[x] && s1[y] == s0[y]);
                }
            }
        }
        Ok(())
    }

    /// Whether the row with the given id exists and is active.
    pub fn is_active_user(&self, id: u128) -> (r: bool)
        requires
            self.wf(),
        ensures
            r == user_active(self@, id),
    {
        match self.index_of_id(id) {
            Some(i) => {
                let active = self.users[i].is_active;
                proof {
                    if active {
                        assert(self@[i as int].id == id && self@[i as int].is_active);
                    } else if user_active(self@, id) {
                        let j = choose |j: int| 0 <= j < self@.len()
                            && self@[j].id == id && self@[j].is_active;
                        if j != i as int {
                            assert(self@[j].id != self@[i as int].id);
                        }
                    }
                }
                active
            },
            None => false,
        }
    }

    /// The number of rows in the table.
    pub fn count(&self) -> (r: usize)
        ensures
            r == self@.len(),
    {
        self.users.len()
    }

    /// Read access to the row at the given position.
    pub(crate) fn row(&self, i: usize) -> (r: &User)
        requires
            i < self@.len(),
        ensures
            *r == self@[i as int],
    {
        &self.users[i]
    }

    /// The row with the given username, cloned, together with its position.
    pub(crate) fn find_by_username(&self, name: &String) -> (r: Option<User>)
        ensures
            match r {
                Some(u) => self@.contains(u) && u.username@ == name@,
                None => !username_taken(self@, name@),
            },
    {
        let mut i: usize = 0;
        while i < self.users.len()
            invariant
                i <= self.users.len(),
                forall |k: int| 0 <= k < i ==> #[trigger] self.users@[k].username@ != name@,
            decreases self.users.len() - i,
        {
            if self.users[i].username == *name {
                let u = clone_user(&self.users[i]);
                proof {
                    assert(self@[i as int] == u);
                }
                return Some(u);
            }
            i += 1;
        }
        None
    }
}

} // verus!
