//! Repository for the management hierarchy.
//!
//! A row `(user_id, reports_to)` makes `reports_to` the direct manager of
//! `user_id`. The table invariant keeps the edges a forest: a user has at
//! most one direct manager, never reports to themself, and every upward
//! chain reaches a user without a manager in finitely many steps. Before a
//! manager is assigned, the existing chain is walked upward from the
//! proposed manager; if the subject is encountered the assignment would
//! close a cycle and is rejected with `Conflict`.

use vstd::prelude::*;

use crate::entities::user_hierarchy::UserHierarchy;
use crate::errors::AppError;
use crate::repositories::user::{user_id_taken, UserRepository};

verus! {

/// Some row of `s` makes `b` the direct manager of `a`.
pub open spec fn edge(s: Seq<UserHierarchy>, a: u128, b: u128) -> bool {
    exists |i: int| 0 <= i < s.len() && #[trigger] s[i].user_id == a && s[i].reports_to == b
}

/// Some row of `s` gives `a` a direct manager.
pub open spec fn has_manager(s: Seq<UserHierarchy>, a: u128) -> bool {
    exists |i: int| 0 <= i < s.len() && #[trigger] s[i].user_id == a
}

/// `b` is reached from `a` in exactly `k` upward steps along the edges of
/// `s`.
pub open spec fn reaches(s: Seq<UserHierarchy>, a: u128, b: u128, k: nat) -> bool
    decreases k,
{
    if k == 0 {
        a == b
    } else {
        exists |m: u128| #[trigger] edge(s, a, m) && reaches(s, m, b, (k - 1) as nat)
    }
}

/// `b` is `a` itself or an ancestor of `a`: some number of upward steps
/// from `a` arrives at `b`.
pub open spec fn in_chain(s: Seq<UserHierarchy>, a: u128, b: u128) -> bool {
    exists |k: nat| reaches(s, a, b, k)
}

/// The upward chain from `u` arrives at a user without a manager within
/// `k` steps.
pub open spec fn terminates(s: Seq<UserHierarchy>, u: u128, k: nat) -> bool
    decreases k,
{
    if !has_manager(s, u) {
        true
    } else if k == 0 {
        false
    } else {
        exists |m: u128| #[trigger] edge(s, u, m) && terminates(s, m, (k - 1) as nat)
    }
}

/// The upward chain from `u` terminates in some finite number of steps.
pub open spec fn chain_ok(s: Seq<UserHierarchy>, u: u128) -> bool {
    exists |k: nat| terminates(s, u, k)
}

/// No two rows give the same user a manager.
pub open spec fn one_manager(s: Seq<UserHierarchy>) -> bool {
    forall |i: int, j: int| 0 <= i < s.len() && 0 <= j < s.len() && i != j ==>
        #[trigger] s[i].user_id != #[trigger] s[j].user_id
}

/// The forest invariant of the hierarchy table: one manager per user, no
/// self-edges, and every chain terminates.
pub open spec fn hierarchy_wf(s: Seq<UserHierarchy>) -> bool {
    &&& one_manager(s)
    &&& forall |i: int| 0 <= i < s.len() ==> (#[trigger] s[i].user_id) != s[i].reports_to
    &&& forall |i: int| 0 <= i < s.len() ==> #[trigger] chain_ok(s, s[i].user_id)
}

/// `s1` is `s0` with the out-edge of `a` rerouted to `b` and everything
/// else untouched.
pub open spec fn edges_rerouted(
    s0: Seq<UserHierarchy>,
    s1: Seq<UserHierarchy>,
    a: u128,
    b: u128,
) -> bool {
    &&& edge(s1, a, b)
    &&& forall |y: u128| #[trigger] edge(s1, a, y) ==> y == b
    &&& forall |x: u128, y: u128| #![trigger edge(s1, x, y)] #![trigger edge(s0, x, y)]
        x != a ==> (edge(s1, x, y) <==> edge(s0, x, y))
    &&& forall |x: u128| #![trigger has_manager(s1, x)] #![trigger has_manager(s0, x)]
        has_manager(s1, x) <==> (x == a || has_manager(s0, x))
}

/// A chain never ends at a user who still has a manager: under `wf` every
/// user, row or not, has a terminating chain.
pub proof fn lemma_chain_ok_any(s: Seq<UserHierarchy>, u: u128)
    requires
        hierarchy_wf(s),
    ensures
        chain_ok(s, u),
{
    if has_manager(s, u) {
        let i = choose |i: int| 0 <= i < s.len() && s[i].user_id == u;
        assert(chain_ok(s, s[i].user_id));
    } else {
        assert(terminates(s, u, 0));
    }
}

/// Under `one_manager`, the out-edge of a user is unique.
pub proof fn lemma_edge_unique(s: Seq<UserHierarchy>, a: u128, m1: u128, m2: u128)
    requires
        one_manager(s),
        edge(s, a, m1),
        edge(s, a, m2),
    ensures
        m1 == m2,
{
    let i = choose |i: int| 0 <= i < s.len() && s[i].user_id == a && s[i].reports_to == m1;
    let j = choose |j: int| 0 <= j < s.len() && s[j].user_id == a && s[j].reports_to == m2;
    if i != j {
        assert(s[i].user_id != s[j].user_id);
    }
}

/// Termination within `k1` steps gives termination within any larger
/// budget.
pub proof fn lemma_terminates_mono(s: Seq<UserHierarchy>, u: u128, k1: nat, k2: nat)
    requires
        terminates(s, u, k1),
        k1 <= k2,
    ensures
        terminates(s, u, k2),
    decreases k1,
{
    if has_manager(s, u) {
        let m = choose |m: u128| #[trigger] edge(s, u, m) && terminates(s, m, (k1 - 1) as nat);
        lemma_terminates_mono(s, m, (k1 - 1) as nat, (k2 - 1) as nat);
        assert(edge(s, u, m) && terminates(s, m, (k2 - 1) as nat));
    }
}

/// One upward step extends chain membership downward.
pub proof fn lemma_in_chain_step(s: Seq<UserHierarchy>, u: u128, m: u128, t: u128)
    requires
        edge(s, u, m),
        in_chain(s, m, t),
    ensures
        in_chain(s, u, t),
{
    let j = choose |j: nat| reaches(s, m, t, j);
    assert(edge(s, u, m) && reaches(s, m, t, j));
    assert(reaches(s, u, t, (j + 1) as nat));
}

/// Stepping from a user to their unique manager neither gains nor loses
/// chain membership, as long as the user is not the target itself.
pub proof fn lemma_step_equiv(s: Seq<UserHierarchy>, u: u128, m: u128, t: u128)
    requires
        one_manager(s),
        edge(s, u, m),
        u != t,
    ensures
        in_chain(s, u, t) == in_chain(s, m, t),
{
    if in_chain(s, m, t) {
        lemma_in_chain_step(s, u, m, t);
    }
    if in_chain(s, u, t) {
        let k = choose |k: nat| reaches(s, u, t, k);
        assert(k != 0);
        let m2 = choose |m2: u128| #[trigger] edge(s, u, m2) && reaches(s, m2, t, (k - 1) as nat);
        lemma_edge_unique(s, u, m, m2);
        assert(reaches(s, m, t, (k - 1) as nat));
    }
}

/// A user without a manager heads no chain but their own.
pub proof fn lemma_root_chain(s: Seq<UserHierarchy>, u: u128, t: u128)
    requires
        !has_manager(s, u),
        u != t,
    ensures
        !in_chain(s, u, t),
{
    if in_chain(s, u, t) {
        let k = choose |k: nat| reaches(s, u, t, k);
        assert(k != 0);
        let m = choose |m: u128| #[trigger] edge(s, u, m) && reaches(s, m, t, (k - 1) as nat);
        let i = choose |i: int| 0 <= i < s.len() && s[i].user_id == u && s[i].reports_to == m;
        assert(has_manager(s, u));
    }
}

/// After rerouting the out-edge of `a`, every chain that avoided `a` still
/// terminates within its old budget.
proof fn lemma_terminates_avoiding(
    s0: Seq<UserHierarchy>,
    s1: Seq<UserHierarchy>,
    a: u128,
    b: u128,
    u: u128,
    k: nat,
)
    requires
        edges_rerouted(s0, s1, a, b),
        terminates(s0, u, k),
        !in_chain(s0, u, a),
    ensures
        terminates(s1, u, k),
    decreases k,
{
    assert(reaches(s0, u, u, 0));
    assert(u != a);
    if !has_manager(s0, u) {
        assert(!has_manager(s1, u));
    } else {
        let m = choose |m: u128| #[trigger] edge(s0, u, m) && terminates(s0, m, (k - 1) as nat);
        assert(edge(s1, u, m));
        if in_chain(s0, m, a) {
            lemma_in_chain_step(s0, u, m, a);
        }
        lemma_terminates_avoiding(s0, s1, a, b, m, (k - 1) as nat);
        assert(edge(s1, u, m) && terminates(s1, m, (k - 1) as nat));
    }
}

/// After rerouting, a chain that passed through `a` terminates by running
/// to `a` the old way and then following the rerouted chain.
proof fn lemma_terminates_through(
    s0: Seq<UserHierarchy>,
    s1: Seq<UserHierarchy>,
    a: u128,
    b: u128,
    u: u128,
    j: nat,
    big: nat,
)
    requires
        edges_rerouted(s0, s1, a, b),
        reaches(s0, u, a, j),
        terminates(s1, a, big),
    ensures
        terminates(s1, u, (j + big) as nat),
    decreases j,
{
    if j == 0 {
        lemma_terminates_mono(s1, a, big, (j + big) as nat);
    } else if u == a {
        lemma_terminates_mono(s1, a, big, (j + big) as nat);
    } else {
        let m = choose |m: u128| #[trigger] edge(s0, u, m) && reaches(s0, m, a, (j - 1) as nat);
        assert(edge(s1, u, m));
        lemma_terminates_through(s0, s1, a, b, m, (j - 1) as nat, big);
        assert(edge(s1, u, m) && terminates(s1, m, (j - 1 + big) as nat));
        assert(terminates(s1, u, (j + big) as nat));
    }
}

/// The heart of cycle prevention: rerouting the out-edge of `a` to a user
/// `b` whose old chain does not contain `a` keeps every chain terminating.
proof fn lemma_reroute_preserves_chains(
    s0: Seq<UserHierarchy>,
    s1: Seq<UserHierarchy>,
    a: u128,
    b: u128,
)
    requires
        hierarchy_wf(s0),
        edges_rerouted(s0, s1, a, b),
        a != b,
        !in_chain(s0, b, a),
    ensures
        forall |u: u128| #[trigger] chain_ok(s1, u),
{
    lemma_chain_ok_any(s0, b);
    let kb = choose |kb: nat| terminates(s0, b, kb);
    lemma_terminates_avoiding(s0, s1, a, b, b, kb);
    assert(edge(s1, a, b) && terminates(s1, b, kb));
    assert(terminates(s1, a, (kb + 1) as nat));
    assert forall |u: u128| #[trigger] chain_ok(s1, u) by {
        lemma_chain_ok_any(s0, u);
        let k = choose |k: nat| terminates(s0, u, k);
        if in_chain(s0, u, a) {
            let j = choose |j: nat| reaches(s0, u, a, j);
            lemma_terminates_through(s0, s1, a, b, u, j, (kb + 1) as nat);
            assert(terminates(s1, u, (j + kb + 1) as nat));
        } else {
            lemma_terminates_avoiding(s0, s1, a, b, u, k);
            assert(terminates(s1, u, k));
        }
    }
}


/// The full behaviour of `assign_manager`.
pub open spec fn assign_manager_spec(
    users: UserRepository,
    pre: UserHierarchyRepository,
    post: UserHierarchyRepository,
    user_id: u128,
    manager_id: u128,
    r: Result<(), AppError>,
) -> bool {
    match r {
        Ok(()) => {
            &&& user_id_taken(users@, user_id)
            &&& user_id_taken(users@, manager_id)
            &&& user_id != manager_id
            &&& !in_chain(pre@, manager_id, user_id)
            &&& edges_rerouted(pre@, post@, user_id, manager_id)
        },
        Err(e) => post == pre && match e {
            AppError::NotFound => !user_id_taken(users@, user_id)
                || !user_id_taken(users@, manager_id),
            AppError::Conflict => user_id_taken(users@, user_id)
                && user_id_taken(users@, manager_id)
                && (user_id == manager_id || in_chain(pre@, manager_id, user_id)),
            _ => false,
        },
    }
}

/// Repository for hierarchy rows: the single owner of the persisted
/// reporting edges.
pub struct UserHierarchyRepository {
    edges: Vec<UserHierarchy>,
}

impl View for UserHierarchyRepository {
    type V = Seq<UserHierarchy>;

    /// The persisted table, in insertion order.
    closed spec fn view(&self) -> Seq<UserHierarchy> {
        self.edges@
    }
}

impl UserHierarchyRepository {
    /// The forest invariant of the table.
    pub open spec fn wf(&self) -> bool {
        hierarchy_wf(self@)
    }

    /// Creates an empty repository.
    pub fn new() -> (r: Self)
        ensures
            r.wf(),
            r@ =~= Seq::<UserHierarchy>::empty(),
    {
        UserHierarchyRepository { edges: Vec::new() }
    }

    /// The position of the row giving `a` a manager, if any.
    fn index_of_user(&self, a: u128) -> (r: Option<usize>)
        ensures
            match r {
                Some(i) => i < self@.len() && self@[i as int].user_id == a,
                None => !has_manager(self@, a),
            },
    {
        let mut i: usize = 0;
        while i < self.edges.len()
            invariant
                i <= self.edges.len(),
                forall |k: int| 0 <= k < i ==> #[trigger] self.edges@[k].user_id != a,
            decreases self.edges.len() - i,
        {
            if self.edges[i].user_id == a {
                return Some(i);
            }
            i += 1;
        }
        None
    }

    /// The direct manager of the given user, if one is assigned.
    pub fn get_manager(&self, user_id: u128) -> (r: Option<u128>)
        ensures
            match r {
                Some(m) => edge(self@, user_id, m),
                None => !has_manager(self@, user_id),
            },
    {
        match self.index_of_user(user_id) {
            Some(i) => {
                let m = self.edges[i].reports_to;
                proof {
                    assert(self@[i as int].user_id == user_id && self@[i as int].reports_to == m);
                }
                Some(m)
            },
            None => None,
        }
    }

    /// Whether `target` lies on the upward chain starting at `from`
    /// (including `from` itself).
    pub fn chain_contains(&self, from: u128, target: u128) -> (r: bool)
        requires
            self.wf(),
        ensures
            r == in_chain(self@, from, target),
    {
        let ghost s = self@;
        let mut cur = from;
        proof {
            lemma_chain_ok_any(s, from);
        }
        let ghost mut fuel: nat = choose |k: nat| terminates(s, from, k);
        loop
            invariant
                self.wf(),
                s == self@,
                terminates(s, cur, fuel),
                in_chain(s, from, target) == in_chain(s, cur, target),
            decreases fuel,
        {
            if cur == target {
                proof {
                    assert(reaches(s, cur, target, 0));
                }
                return true;
            }
            match self.get_manager(cur) {
                Some(m) => {
                    proof {
                        lemma_step_equiv(s, cur, m, target);
                        let m2 = choose |m2: u128| #[trigger] edge(s, cur, m2)
                            && terminates(s, m2, (fuel - 1) as nat);
                        lemma_edge_unique(s, cur, m, m2);
                        fuel = (fuel - 1) as nat;
                    }
                    cur = m;
                },
                None => {
                    proof {
                        lemma_root_chain(s, cur, target);
                    }
                    return false;
                },
            }
        }
    }

    /// Assigns or reassigns the direct manager of a user.
    ///
    /// Fails with `NotFound` unless both users exist, and with `Conflict`
    /// when the subject and the proposed manager coincide or the subject
    /// already stands on the proposed manager's upward chain — the
    /// assignment would make the subject their own indirect manager.
    /// Otherwise the subject's single out-edge is created or rerouted and
    /// the forest invariant is preserved.
    pub fn assign_manager(
        &mut self,
        users: &UserRepository,
        user_id: u128,
        manager_id: u128,
    ) -> (r: Result<(), AppError>)
        requires
            old(self).wf(),
        ensures
            final(self).wf(),
            assign_manager_spec(*users, *old(self), *final(self), user_id, manager_id, r),
    {
        let user_exists = match users.check_if_id_exists(user_id) {
            Ok(b) => b,
            Err(e) => return Err(e),
        };
        let manager_exists = match users.check_if_id_exists(manager_id) {
            Ok(b) => b,
            Err(e) => return Err(e),
        };
        if !user_exists || !manager_exists {
            return Err(AppError::NotFound);
        }
        if user_id == manager_id {
            return Err(AppError::Conflict);
        }
        if self.chain_contains(manager_id, user_id) {
            return Err(AppError::Conflict);
        }
        let ghost s0 = self@;
        let row = UserHierarchy { user_id, reports_to: manager_id };
        match self.index_of_user(user_id) {
            Some(i) => {
                let slot = &mut self.edges[i];
                slot.user_id = user_id;
                slot.reports_to = manager_id;
                proof {
                    let s1 = self@;
                    assert(s1 =~= s0.update(i as int, row));
                    lemma_update_case(s0, s1, i as int, user_id, manager_id);
                    assert forall |x: int| 0 <= x < s1.len()
                        implies (#[trigger] s1[x].user_id) != s1[x].reports_to by {
                        if x != i as int {
                            assert(s1[x] == s0[x]);
                        }
                    }
                    lemma_reroute_preserves_chains(s0, s1, user_id, manager_id);
                    assert forall |x: int| 0 <= x < s1.len()
                        implies #[trigger] chain_ok(s1, s1[x].user_id) by {
                        assert(chain_ok(s1, s1[x].user_id));
                    }
                }
            },
            None => {
                self.edges.push(row);
                proof {
                    let s1 = self@;
                    lemma_push_case(s0, s1, user_id, manager_id);
                    assert forall |x: int| 0 <= x < s1.len()
                        implies (#[trigger] s1[x].user_id) != s1[x].reports_to by {
                        if x < s0.len() {
                            assert(s1[x] == s0[x]);
                        }
                    }
                    lemma_reroute_preserves_chains(s0, s1, user_id, manager_id);
                    assert forall |x: int| 0 <= x < s1.len()
                        implies #[trigger] chain_ok(s1, s1[x].user_id) by {
                        assert(chain_ok(s1, s1[x].user_id));
                    }
                }
            },
        }
        Ok(())
    }

    /// Removes the manager assignment of the given user, or fails with
    /// `NotFound` when the user has none.
    pub fn remove_manager(&mut self, user_id: u128) -> (r: Result<(), AppError>)
        requires
            old(self).wf(),
        ensures
            final(self).wf(),
            match r {
                Ok(()) => {
                    &&& has_manager(old(self)@, user_id)
                    &&& !has_manager(final(self)@, user_id)
                    &&& forall |x: u128, y: u128|
                        #![trigger edge(final(self)@, x, y)]
                        #![trigger edge(old(self)@, x, y)]
                        x != user_id ==> (edge(final(self)@, x, y) <==> edge(old(self)@, x, y))
                },
                Err(e) => *final(self) == *old(self) && e is NotFound
                    && !has_manager(old(self)@, user_id),
            },
    {
        let i = match self.index_of_user(user_id) {
            Some(i) => i,
            None => return Err(AppError::NotFound),
        };
        self.edges.remove(i);
        proof {
            let s0 = old(self)@;
            let s1 = self@;
            assert(s1 =~= s0.remove(i as int));
            lemma_remove_case(s0, s1, i as int, user_id);
            assert forall |x: int| 0 <= x < s1.len()
                implies (#[trigger] s1[x].user_id) != s1[x].reports_to by {
                let x0: int = if x < i as int { x } else { x + 1 };
                assert(s1[x] == s0[x0]);
            }
            assert forall |u: u128| #[trigger] chain_ok(s1, u) by {
                lemma_chain_ok_any(s0, u);
                let k = choose |k: nat| terminates(s0, u, k);
                lemma_terminates_removed(s0, s1, user_id, u, k);
            }
            assert forall |x: int| 0 <= x < s1.len()
                implies #[trigger] chain_ok(s1, s1[x].user_id) by {
                assert(chain_ok(s1, s1[x].user_id));
            }
        }
        Ok(())
    }
}

/// The relational shape of a push of the edge `(a, b)` onto a table where
/// `a` had no edge.
proof fn lemma_push_case(s0: Seq<UserHierarchy>, s1: Seq<UserHierarchy>, a: u128, b: u128)
    requires
        one_manager(s0),
        !has_manager(s0, a),
        s1 == s0.push(UserHierarchy { user_id: a, reports_to: b }),
    ensures
        edges_rerouted(s0, s1, a, b),
        one_manager(s1),
{
    let n = s0.len() as int;
    assert(s1[n].user_id == a && s1[n].reports_to == b);
    assert(edge(s1, a, b));
    assert forall |y: u128| #[trigger] edge(s1, a, y) implies y == b by {
        let i = choose |i: int| 0 <= i < s1.len() && s1[i].user_id == a && s1[i].reports_to == y;
        if i < n {
            assert(s0[i].user_id == a);
            assert(has_manager(s0, a));
        }
    }
    assert forall |x: u128, y: u128| #![trigger edge(s1, x, y)] #![trigger edge(s0, x, y)]
        x != a implies (edge(s1, x, y) <==> edge(s0, x, y)) by {
        if edge(s1, x, y) {
            let i = choose |i: int| 0 <= i < s1.len() && s1[i].user_id == x && s1[i].reports_to == y;
            assert(i < n);
            assert(s0[i].user_id == x && s0[i].reports_to == y);
        }
        if edge(s0, x, y) {
            let i = choose |i: int| 0 <= i < s0.len() && s0[i].user_id == x && s0[i].reports_to == y;
            assert(s1[i].user_id == x && s1[i].reports_to == y);
        }
    }
    assert forall |x: u128| #![trigger has_manager(s1, x)] #![trigger has_manager(s0, x)]
        has_manager(s1, x) <==> (x == a || has_manager(s0, x)) by {
        if has_manager(s1, x) && x != a {
            let i = choose |i: int| 0 <= i < s1.len() && s1[i].user_id == x;
            assert(i < n);
            assert(s0[i].user_id == x);
        }
        if has_manager(s0, x) {
            let i = choose |i: int| 0 <= i < s0.len() && s0[i].user_id == x;
            assert(s1[i].user_id == x);
        }
        if x == a {
            assert(s1[n].user_id == a);
        }
    }
    assert forall |i: int, j: int| 0 <= i < s1.len() && 0 <= j < s1.len() && i != j
        implies #[trigger] s1[i].user_id != #[trigger] s1[j].user_id by {
        if i < n && j < n {
            assert(s1[i] == s0[i] && s1[j] == s0[j]);
        } else if i < n {
            assert(s1[i] == s0[i] && s1[j].user_id == a);
            if s0[i].user_id == a {
                assert(has_manager(s0, a));
            }
        } else {
            assert(s1[j] == s0[j] && s1[i].user_id == a);
            if s0[j].user_id == a {
                assert(has_manager(s0, a));
            }
        }
    }
}

/// The relational shape of rerouting the single existing edge of `a` in
/// place.
proof fn lemma_update_case(s0: Seq<UserHierarchy>, s1: Seq<UserHierarchy>, idx: int, a: u128, b: u128)
    requires
        one_manager(s0),
        0 <= idx < s0.len(),
        s0[idx].user_id == a,
        s1 == s0.update(idx, UserHierarchy { user_id: a, reports_to: b }),
    ensures
        edges_rerouted(s0, s1, a, b),
        one_manager(s1),
{
    assert(s1[idx].user_id == a && s1[idx].reports_to == b);
    assert(edge(s1, a, b));
    assert forall |y: u128| #[trigger] edge(s1, a, y) implies y == b by {
        let i = choose |i: int| 0 <= i < s1.len() && s1[i].user_id == a && s1[i].reports_to == y;
        if i != idx {
            assert(s1[i] == s0[i]);
            assert(s0[i].user_id != s0[idx].user_id);
        }
    }
    assert forall |x: u128, y: u128| #![trigger edge(s1, x, y)] #![trigger edge(s0, x, y)]
        x != a implies (edge(s1, x, y) <==> edge(s0, x, y)) by {
        if edge(s1, x, y) {
            let i = choose |i: int| 0 <= i < s1.len() && s1[i].user_id == x && s1[i].reports_to == y;
            assert(i != idx);
            assert(s0[i].user_id == x && s0[i].reports_to == y);
        }
        if edge(s0, x, y) {
            let i = choose |i: int| 0 <= i < s0.len() && s0[i].user_id == x && s0[i].reports_to == y;
            assert(i != idx);
            assert(s1[i].user_id == x && s1[i].reports_to == y);
        }
    }
    assert forall |x: u128| #![trigger has_manager(s1, x)] #![trigger has_manager(s0, x)]
        has_manager(s1, x) <==> (x == a || has_manager(s0, x)) by {
        if has_manager(s1, x) && x != a {
            let i = choose |i: int| 0 <= i < s1.len() && s1[i].user_id == x;
            assert(i != idx);
            assert(s0[i].user_id == x);
        }
        if has_manager(s0, x) && x != a {
            let i = choose |i: int| 0 <= i < s0.len() && s0[i].user_id == x;
            assert(i != idx);
            assert(s1[i].user_id == x);
        }
        if x == a {
            assert(s1[idx].user_id == a);
        }
    }
    assert forall |i: int, j: int| 0 <= i < s1.len() && 0 <= j < s1.len() && i != j
        implies #[trigger] s1[i].user_id != #[trigger] s1[j].user_id by {
        assert(s1[i].user_id == if i == idx { a } else { s0[i].user_id });
        assert(s1[j].user_id == if j == idx { a } else { s0[j].user_id });
        assert(s0[i].user_id != s0[j].user_id);
    }
}

/// The relational shape of removing the single edge of `a`.
proof fn lemma_remove_case(s0: Seq<UserHierarchy>, s1: Seq<UserHierarchy>, idx: int, a: u128)
    requires
        one_manager(s0),
        0 <= idx < s0.len(),
        s0[idx].user_id == a,
        s1 == s0.remove(idx),
    ensures
        !has_manager(s1, a),
        forall |x: u128, y: u128| #![trigger edge(s1, x, y)] #![trigger edge(s0, x, y)]
            x != a ==> (edge(s1, x, y) <==> edge(s0, x, y)),
        forall |x: u128| x != a ==> (#[trigger] has_manager(s1, x) ==> has_manager(s0, x)),
        one_manager(s1),
        forall |i: int| 0 <= i < s1.len() ==> ((#[trigger] s1[i].user_id) == s0[if i < idx { i } else { i + 1 }].user_id
            && s1[i].reports_to == s0[if i < idx { i } else { i + 1 }].reports_to),
{
    assert forall |i: int| 0 <= i < s1.len()
        implies ((#[trigger] s1[i].user_id) == s0[if i < idx { i } else { i + 1 }].user_id
            && s1[i].reports_to == s0[if i < idx { i } else { i + 1 }].reports_to) by {
        if i < idx {
            assert(s1[i] == s0[i]);
        } else {
            assert(s1[i] == s0[i + 1]);
        }
    }
    assert forall |i: int| 0 <= i < s1.len() implies (#[trigger] s1[i].user_id) != a by {
        let i0: int = if i < idx { i } else { i + 1 };
        assert(s1[i] == s0[i0]);
        if i0 != idx {
            assert(s0[i0].user_id != s0[idx].user_id);
        }
    }
    assert forall |x: u128, y: u128| #![trigger edge(s1, x, y)] #![trigger edge(s0, x, y)]
        x != a implies (edge(s1, x, y) <==> edge(s0, x, y)) by {
        if edge(s1, x, y) {
            let i = choose |i: int| 0 <= i < s1.len() && s1[i].user_id == x && s1[i].reports_to == y;
            let i0: int = if i < idx { i } else { i + 1 };
            assert(s1[i] == s0[i0]);
        }
        if edge(s0, x, y) {
            let i = choose |i: int| 0 <= i < s0.len() && s0[i].user_id == x && s0[i].reports_to == y;
            assert(i != idx);
            let i1: int = if i < idx { i } else { i - 1 };
            assert(s1[i1] == s0[i]);
        }
    }
    assert forall |x: u128| x != a && #[trigger] has_manager(s1, x)
        implies has_manager(s0, x) by {
        let i = choose |i: int| 0 <= i < s1.len() && s1[i].user_id == x;
        let i0: int = if i < idx { i } else { i + 1 };
        assert(s1[i] == s0[i0]);
    }
    assert forall |i: int, j: int| 0 <= i < s1.len() && 0 <= j < s1.len() && i != j
        implies #[trigger] s1[i].user_id != #[trigger] s1[j].user_id by {
        let i0: int = if i < idx { i } else { i + 1 };
        let j0: int = if j < idx { j } else { j + 1 };
        assert(s1[i] == s0[i0] && s1[j] == s0[j0]);
    }
}

/// Removing an edge only shortens chains: every old termination budget
/// still suffices.
proof fn lemma_terminates_removed(
    s0: Seq<UserHierarchy>,
    s1: Seq<UserHierarchy>,
    a: u128,
    u: u128,
    k: nat,
)
    requires
        !has_manager(s1, a),
        forall |x: u128, y: u128| #![trigger edge(s1, x, y)] #![trigger edge(s0, x, y)]
            x != a ==> (edge(s1, x, y) <==> edge(s0, x, y)),
        forall |x: u128| x != a ==> (#[trigger] has_manager(s1, x) ==> has_manager(s0, x)),
        terminates(s0, u, k),
    ensures
        terminates(s1, u, k),
    decreases k,
{
    if u == a {
        assert(!has_manager(s1, u));
        assert(terminates(s1, u, k));
    } else if !has_manager(s1, u) {
        assert(terminates(s1, u, k));
    } else {
        assert(has_manager(s0, u));
        let m = choose |m: u128| #[trigger] edge(s0, u, m) && terminates(s0, m, (k - 1) as nat);
        assert(edge(s1, u, m));
        lemma_terminates_removed(s0, s1, a, m, (k - 1) as nat);
        assert(edge(s1, u, m) && terminates(s1, m, (k - 1) as nat));
    }
}

} // verus!
