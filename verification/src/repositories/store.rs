//! Repository for the store aggregate.
//!
//! A store is owned by a user: the owner id must reference an existing
//! user before the row is inserted. The sequential id is unique.

use vstd::prelude::*;

use crate::clock;
use crate::entities::store::{Address, Store};
use crate::errors::AppError;
use crate::repositories::user::{user_id_taken, UserRepository};

verus! {

/// Some row of `s` has the given id.
pub open spec fn store_id_taken(s: Seq<Store>, id: i32) -> bool {
    exists |i: int| 0 <= i < s.len() && #[trigger] s[i].id == id
}

/// Some row of `s` has the given id and owner.
pub open spec fn store_owned_by(s: Seq<Store>, id: i32, owner_id: u128) -> bool {
    exists |i: int| 0 <= i < s.len() && #[trigger] s[i].id == id && s[i].owner_id == owner_id
}

/// The uniqueness invariant of the store table: no two rows share an id.
pub open spec fn stores_wf(s: Seq<Store>) -> bool {
    forall |i: int, j: int| 0 <= i < s.len() && 0 <= j < s.len() && i != j ==>
        #[trigger] s[i].id != #[trigger] s[j].id
}

/// Row `st` is what `create` persists: the given owner, name, and address,
/// with both timestamps agreeing on whatever instant the clock returned.
pub open spec fn store_created(st: Store, id: i32, owner_id: u128, name: Seq<char>, address: Address) -> bool {
    &&& st.id == id
    &&& st.owner_id == owner_id
    &&& st.name@ == name
    &&& st.address.country@ == address.country@
    &&& st.address.state@ == address.state@
    &&& st.address.city@ == address.city@
    &&& st.address.street@ == address.street@
    &&& st.address.zip@ == address.zip@
    &&& st.created_at == st.updated_at
}

/// A field-by-field copy of an address.
fn clone_address(a: &Address) -> (r: Address)
    ensures
        r == *a,
{
    Address {
        country: a.country.clone(),
        state: a.state.clone(),
        city: a.city.clone(),
        street: a.street.clone(),
        zip: a.zip.clone(),
    }
}

/// A field-by-field copy of a store row.
fn clone_store(s: &Store) -> (r: Store)
    ensures
        r == *s,
{
    Store {
        id: s.id,
        owner_id: s.owner_id,
        name: s.name.clone(),
        address: clone_address(&s.address),
        created_at: s.created_at,
        updated_at: s.updated_at,
    }
}

/// Repository for store rows: the single owner of the persisted store
/// table.
pub struct StoreRepository {
    stores: Vec<Store>,
    next_id: i32,
}

impl View for StoreRepository {
    type V = Seq<Store>;

    /// The persisted table, in insertion order.
    closed spec fn view(&self) -> Seq<Store> {
        self.stores@
    }
}

impl StoreRepository {
    /// The id the next created row will receive.
    pub closed spec fn fresh_id(&self) -> i32 {
        self.next_id
    }

    /// Table invariants: id uniqueness, and every stored id lies below the
    /// next fresh id.
    pub open spec fn wf(&self) -> bool {
        &&& stores_wf(self@)
        &&& forall |i: int| 0 <= i < self@.len() ==> (#[trigger] self@[i].id) < self.fresh_id()
    }

    /// Creates an empty repository.
    pub fn new() -> (r: Self)
        ensures
            r.wf(),
            r@ =~= Seq::<Store>::empty(),
            r.fresh_id() == 1i32,
    {
        StoreRepository { stores: Vec::new(), next_id: 1 }
    }

    /// Whether some row has the given id.
    pub fn check_if_id_exists(&self, id: i32) -> (r: Result<bool, AppError>)
        ensures
            r == Result::<bool, AppError>::Ok(store_id_taken(self@, id)),
    {
        Ok(self.index_of_id(id).is_some())
    }

    /// The position of the row with the given id, if any.
    fn index_of_id(&self, id: i32) -> (r: Option<usize>)
        ensures
            match r {
                Some(i) => i < self@.len() && self@[i as int].id == id,
                None => !store_id_taken(self@, id),
            },
    {
        let mut i: usize = 0;
        while i < self.stores.len()
            invariant
                i <= self.stores.len(),
                forall |k: int| 0 <= k < i ==> #[trigger] self.stores@[k].id != id,
            decreases self.stores.len() - i,
        {
            if self.stores[i].id == id {
                return Some(i);
            }
            i += 1;
        }
        None
    }

    /// Registers a store for an existing owner.
    ///
    /// Fails with `NotFound` unless the owner references an existing user,
    /// and with `InternalServerError` when the id space is exhausted;
    /// otherwise the row is appended and returned.
    pub fn create_store(
        &mut self,
        users: &UserRepository,
        owner_id: u128,
        name: String,
        address: Address,
    ) -> (r: Result<Store, AppError>)
        requires
            old(self).wf(),
        ensures
            final(self).wf(),
            match r {
                Ok(st) => {
                    &&& user_id_taken(users@, owner_id)
                    &&& old(self).fresh_id() < i32::MAX
                    &&& final(self)@.len() == old(self)@.len() + 1
                    &&& final(self)@.subrange(0, old(self)@.len() as int) =~= old(self)@
                    &&& final(self)@.last() == st
                    &&& store_created(st, old(self).fresh_id(), owner_id, name@, address)
                    &&& final(self).fresh_id() == old(self).fresh_id() + 1
                },
                Err(e) => *final(self) == *old(self) && match e {
                    AppError::NotFound => !user_id_taken(users@, owner_id),
                    AppError::InternalServerError(_) => user_id_taken(users@, owner_id)
                        && old(self).fresh_id() == i32::MAX,
                    _ => false,
                },
            },
    {
        let owner_exists = match users.check_if_id_exists(owner_id) {
            Ok(b) => b,
            Err(e) => return Err(e),
        };
        if !owner_exists {
            return Err(AppError::NotFound);
        }
        if self.next_id == i32::MAX {
            return Err(AppError::InternalServerError("store id space exhausted".to_owned()));
        }
        let t = clock::now_millis();
        let st = Store {
            id: self.next_id,
            owner_id,
            name,
            address,
            created_at: t,
            updated_at: t,
        };
        let copy = clone_store(&st);
        self.stores.push(st);
        self.next_id = self.next_id + 1;
        assert(self@.subrange(0, old(self)@.len() as int) =~= old(self)@);
        Ok(copy)
    }

    /// Returns the row with the given id, or `NotFound`.
    pub fn get_store_by_id(&self, id: i32) -> (r: Result<Store, AppError>)
        ensures
            match r {
                Ok(st) => self@.contains(st) && st.id == id,
                Err(e) => e is NotFound && !store_id_taken(self@, id),
            },
    {
        match self.index_of_id(id) {
            Some(i) => {
                let st = clone_store(&self.stores[i]);
                proof {
                    assert(self@[i as int] == st);
                }
                Ok(st)
            },
            None => Err(AppError::NotFound),
        }
    }

    /// Whether the row with the given id is owned by the given user.
    pub fn is_owned_by(&self, id: i32, owner_id: u128) -> (r: bool)
        requires
            self.wf(),
        ensures
            r == store_owned_by(self@, id, owner_id),
    {
        match self.index_of_id(id) {
            Some(i) => {
                let owned = self.stores[i].owner_id == owner_id;
                proof {
                    if owned {
                        assert(self@[i as int].id == id && self@[i as int].owner_id == owner_id);
                    } else if store_owned_by(self@, id, owner_id) {
                        let j = choose |j: int| 0 <= j < self@.len() && self@[j].id == id
                            && self@[j].owner_id == owner_id;
                        if j != i as int {
                            assert(self@[j].id != self@[i as int].id);
                        }
                    }
                }
                owned
            },
            None => false,
        }
    }
}

} // verus!
