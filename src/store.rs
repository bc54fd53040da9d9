use std::collections::HashMap;
use vstd::prelude::*;

use crate::history::{is_create_step, is_delete_step, is_keep_step};
use crate::user::{apply_update, CreateUserRequest, UpdateUserRequest, User, UserView};

verus! {

/// Why a store operation did not take place.
#[derive(Clone, Copy, Debug, PartialEq, Eq, Structural)]
pub enum StoreError {
    /// A required field of a create request is empty.
    Validation,
    /// No record has the requested id.
    NotFound,
    /// The largest id in use is `u32::MAX`, so no next id exists.
    IdsExhausted,
}

/// Whether `k` is the largest key of `m`.
pub open spec fn is_max_key(m: Map<u32, UserView>, k: u32) -> bool {
    m.contains_key(k) && forall|j: u32| #[trigger] m.contains_key(j) ==> j <= k
}

/// The largest key of `m`, or 0 for an empty table.
pub open spec fn max_key(m: Map<u32, UserView>) -> int {
    if exists|k: u32| is_max_key(m, k) {
        (choose|k: u32| is_max_key(m, k)) as int
    } else {
        0
    }
}

/// The id that the next created record receives: the largest key plus one.
pub open spec fn next_id(m: Map<u32, UserView>) -> int {
    max_key(m) + 1
}

/// The record that a successful create stores.
pub open spec fn created_record(
    m: Map<u32, UserView>,
    name: Seq<char>,
    email: Seq<char>,
    age: u32,
    created_at: Seq<char>,
) -> UserView {
    UserView { id: next_id(m) as u32, name, email, age, created_at }
}

/// `v` holds a copy of every record of `m`, each exactly once.
pub open spec fn is_listing(m: Map<u32, UserView>, v: Seq<User>) -> bool {
    &&& v.len() == m.len()
    &&& forall|i: int|
        0 <= i < v.len() ==> m.contains_key(#[trigger] v[i].id) && m[v[i].id] == v[i]@
    &&& forall|k: u32| #[trigger]
        m.contains_key(k) ==> exists|i: int| 0 <= i < v.len() && v[i].id == k
    &&& forall|i: int, j: int| 0 <= i < v.len() && 0 <= j < v.len() && i != j ==> v[i].id != v[j].id
}

/// The three records a store starts with.
pub open spec fn seed_users() -> Map<u32, UserView> {
    map![
        1u32 => seed_record(1, "Иван Иванов"@, "ivan@example.com"@, 25, "2024-01-01T10:00:00Z"@),
        2u32 => seed_record(2, "Мария Петрова"@, "maria@example.com"@, 30, "2024-01-02T11:00:00Z"@),
        3u32 => seed_record(3, "Алексей Сидоров"@, "alex@example.com"@, 28, "2024-01-03T12:00:00Z"@),
    ]
}

/// A record built from its five fields.
pub open spec fn seed_record(
    id: u32,
    name: Seq<char>,
    email: Seq<char>,
    age: u32,
    created_at: Seq<char>,
) -> UserView {
    UserView { id, name, email, age, created_at }
}

/// The table of user records, keyed by id.
///
/// `ids` lists each key of `users` once, in the order of insertion; it lets
/// the table be walked without a hash-map iterator.
pub struct UserStore {
    users: HashMap<u32, User>,
    ids: Vec<u32>,
}

impl View for UserStore {
    type V = Map<u32, UserView>;

    closed spec fn view(&self) -> Map<u32, UserView> {
        self.users@.map_values(|u: User| u@)
    }
}

impl UserStore {
    /// Each record is stored under its own id, and `ids` lists the keys once each.
    pub closed spec fn well_formed(&self) -> bool {
        &&& forall|k: u32| #[trigger] self.users@.contains_key(k) ==> self.users@[k].id == k
        &&& forall|i: int|
            0 <= i < self.ids@.len() ==> #[trigger] self.users@.contains_key(self.ids@[i])
        &&& forall|k: u32| #[trigger] self.users@.contains_key(k) ==> self.ids@.contains(k)
        &&& self.ids@.no_duplicates()
    }

    proof fn lemma_len(&self)
        requires
            self.well_formed(),
        ensures
            self@.dom().finite(),
            self@.len() == self.ids@.len(),
            forall|k: u32| #[trigger] self@.contains_key(k) ==> self@[k].id == k,
    {
        assert(self@.dom() =~= self.ids@.to_set());
        self.ids@.unique_seq_to_set();
    }

    /// A well-formed table is finite, and each of its records is stored
    /// under its own id.
    pub proof fn lemma_records_keyed_by_id(&self)
        requires
            self.well_formed(),
        ensures
            self@.dom().finite(),
            forall|k: u32| #[trigger] self@.contains_key(k) ==> self@[k].id == k,
    {
        self.lemma_len();
    }

    /// An empty table.
    pub fn new() -> (s: UserStore)
        ensures
            s.well_formed(),
            s@ == Map::<u32, UserView>::empty(),
    {
        let s = UserStore { users: HashMap::new(), ids: Vec::new() };
        assert(s@ =~= Map::<u32, UserView>::empty());
        s
    }

    /// A table holding the three seed records, with ids 1, 2 and 3.
    pub fn with_seed_users() -> (s: UserStore)
        ensures
            s.well_formed(),
            s@ == seed_users(),
    {
        let mut s = UserStore::new();
        s.insert_new(
            User {
                id: 1,
                name: "Иван Иванов".to_string(),
                email: "ivan@example.com".to_string(),
                age: 25,
                created_at: "2024-01-01T10:00:00Z".to_string(),
            },
        );
        s.insert_new(
            User {
                id: 2,
                name: "Мария Петрова".to_string(),
                email: "maria@example.com".to_string(),
                age: 30,
                created_at: "2024-01-02T11:00:00Z".to_string(),
            },
        );
        s.insert_new(
            User {
                id: 3,
                name: "Алексей Сидоров".to_string(),
                email: "alex@example.com".to_string(),
                age: 28,
                created_at: "2024-01-03T12:00:00Z".to_string(),
            },
        );
        assert(s@ =~= seed_users());
        s
    }

    /// Stores `user` under its id, which no record holds yet.
    fn insert_new(&mut self, user: User)
        requires
            old(self).well_formed(),
            !old(self)@.contains_key(user.id),
        ensures
            final(self).well_formed(),
            final(self)@ == old(self)@.insert(user.id, user@),
    {
        let ghost before = self.users@;
        let id = user.id;
        self.users.insert(id, user);
        self.ids.push(id);
        assert(self@ =~= before.map_values(|u: User| u@).insert(id, user@));
        assert forall|k: u32| #[trigger] self.users@.contains_key(k) implies self.ids@.contains(k) by {
            if k != id {
                let j = choose|j: int| 0 <= j < old(self).ids@.len() && old(self).ids@[j] == k;
                assert(self.ids@[j] == k);
            } else {
                assert(self.ids@[self.ids@.len() - 1] == k);
            }
        }
    }

    /// The number of records.
    pub fn len(&self) -> (r: usize)
        requires
            self.well_formed(),
        ensures
            r == self@.len(),
    {
        proof {
            self.lemma_len();
        }
        self.ids.len()
    }

    /// A copy of the record with id `id`, or `None` when there is none.
    pub fn get_by_id(&self, id: u32) -> (r: Option<User>)
        requires
            self.well_formed(),
        ensures
            match r {
                Some(u) => self@.contains_key(id) && u@ == self@[id],
                None => !self@.contains_key(id),
            },
    {
        match self.users.get(&id) {
            Some(u) => Some(u.snapshot()),
            None => None,
        }
    }

    /// A copy of every record, each once, in no promised order.
    pub fn list(&self) -> (r: Vec<User>)
        requires
            self.well_formed(),
        ensures
            is_listing(self@, r@),
    {
        proof {
            self.lemma_len();
        }
        let mut r: Vec<User> = Vec::new();
        let mut i: usize = 0;
        while i < self.ids.len()
            invariant
                self.well_formed(),
                0 <= i <= self.ids@.len(),
                r@.len() == i,
                forall|j: int|
                    0 <= j < i ==> (#[trigger] r@[j]).id == self.ids@[j] && r@[j]@
                        == self@[self.ids@[j]],
            decreases self.ids@.len() - i,
        {
            let id = self.ids[i];
            match self.users.get(&id) {
                Some(u) => {
                    r.push(u.snapshot());
                },
                None => {
                    assert(self.users@.contains_key(self.ids@[i as int]));
                },
            }
            i = i + 1;
        }
        assert forall|k: u32| #[trigger] self@.contains_key(k) implies exists|i: int|
            0 <= i < r@.len() && r@[i].id == k by {
            assert(self.users@.contains_key(k));
            let j = choose|j: int| 0 <= j < self.ids@.len() && self.ids@[j] == k;
            assert(r@[j].id == k);
        }
        assert forall|a: int, b: int|
            0 <= a < r@.len() && 0 <= b < r@.len() && a != b implies r@[a].id != r@[b].id by {
            assert(r@[a].id == self.ids@[a]);
            assert(r@[b].id == self.ids@[b]);
        }
        r
    }

    /// The largest id in the table, or 0 when it is empty.
    fn max_id(&self) -> (r: u32)
        requires
            self.well_formed(),
        ensures
            r as int == max_key(self@),
    {
        let mut m: u32 = 0;
        let mut i: usize = 0;
        while i < self.ids.len()
            invariant
                self.well_formed(),
                0 <= i <= self.ids@.len(),
                forall|j: int| 0 <= j < i ==> self.ids@[j] <= m,
                i == 0 ==> m == 0,
                i > 0 ==> exists|j: int| 0 <= j < i && self.ids@[j] == m,
            decreases self.ids@.len() - i,
        {
            if self.ids[i] > m || i == 0 {
                m = self.ids[i];
            }
            i = i + 1;
        }
        proof {
            if self.ids@.len() > 0 {
                assert forall|k: u32| #[trigger] self@.contains_key(k) implies k <= m by {
                    assert(self.users@.contains_key(k));
                    let j = choose|j: int| 0 <= j < self.ids@.len() && self.ids@[j] == k;
                }
                let j = choose|j: int| 0 <= j < i && self.ids@[j] == m;
                assert(self.users@.contains_key(self.ids@[j]));
                assert(is_max_key(self@, m));
                let c = choose|k: u32| is_max_key(self@, k);
                assert(c <= m && m <= c);
            } else {
                assert forall|k: u32| !is_max_key(self@, k) by {
                    if self@.contains_key(k) {
                        assert(self.ids@.contains(k));
                    }
                }
            }
        }
        m
    }

    /// Creates a record from `req` with the timestamp `created_at`, which the
    /// caller reads from the clock.
    ///
    /// Fails with `Validation` when `req.name` or `req.email` is empty, and
    /// with `IdsExhausted` when the largest id is `u32::MAX`. Otherwise the
    /// record gets the largest id plus one (1 in an empty table), which is
    /// greater than every id in the table.
    pub fn create(&mut self, req: CreateUserRequest, created_at: String) -> (r: Result<
        User,
        StoreError,
    >)
        requires
            old(self).well_formed(),
        ensures
            final(self).well_formed(),
            match r {
                Ok(u) => {
                    &&& req.is_valid()
                    &&& next_id(old(self)@) <= u32::MAX
                    &&& u@ == created_record(
                        old(self)@,
                        req.name@,
                        req.email@,
                        req.age,
                        created_at@,
                    )
                    &&& final(self)@ == old(self)@.insert(u.id, u@)
                    &&& forall|k: u32| #[trigger] old(self)@.contains_key(k) ==> k < u.id
                    &&& is_create_step(old(self)@, final(self)@)
                },
                Err(e) => {
                    &&& final(self)@ == old(self)@
                    &&& if !req.is_valid() {
                        e == StoreError::Validation
                    } else {
                        e == StoreError::IdsExhausted && next_id(old(self)@) > u32::MAX
                    }
                },
            },
    {
        if req.name.as_str().is_empty() || req.email.as_str().is_empty() {
            return Err(StoreError::Validation);
        }
        let m = self.max_id();
        if m == u32::MAX {
            return Err(StoreError::IdsExhausted);
        }
        let id = m + 1;
        proof {
            self.lemma_created_id_exceeds_existing();
        }
        let user = User { id, name: req.name, email: req.email, age: req.age, created_at };
        let copy = user.snapshot();
        self.insert_new(user);
        assert(!old(self)@.contains_key(id) && self@ == old(self)@.insert(id, copy@));
        Ok(copy)
    }

    proof fn lemma_created_id_exceeds_existing(&self)
        requires
            self.well_formed(),
        ensures
            forall|k: u32| #[trigger] self@.contains_key(k) ==> k < next_id(self@),
    {
        self.lemma_len();
        assert forall|k: u32| #[trigger] self@.contains_key(k) implies k < next_id(self@) by {
            assert(exists|c: u32| is_max_key(self@, c)) by {
                lemma_max_key_exists(self@, k);
            }
        }
    }

    /// Writes the present fields of `req` over the record with id `id`.
    ///
    /// Fails with `NotFound`, changing nothing, when there is no such record.
    /// The id and the creation time are never changed.
    pub fn update(&mut self, id: u32, req: &UpdateUserRequest) -> (r: Result<User, StoreError>)
        requires
            old(self).well_formed(),
        ensures
            final(self).well_formed(),
            match r {
                Ok(u) => {
                    &&& old(self)@.contains_key(id)
                    &&& u@ == apply_update(old(self)@[id], *req)
                    &&& final(self)@ == old(self)@.insert(id, u@)
                    &&& is_keep_step(old(self)@, final(self)@)
                },
                Err(e) => {
                    &&& e == StoreError::NotFound
                    &&& !old(self)@.contains_key(id)
                    &&& final(self)@ == old(self)@
                },
            },
    {
        let mut user = match self.users.get(&id) {
            Some(u) => u.snapshot(),
            None => {
                return Err(StoreError::NotFound);
            },
        };
        req.apply_to(&mut user);
        let ghost before = self.users@;
        let copy = user.snapshot();
        self.users.insert(id, user);
        proof {
            assert(self@ =~= before.map_values(|u: User| u@).insert(id, copy@));
            assert(self@.dom() =~= old(self)@.dom());
            assert forall|k: u32| #[trigger] self.users@.contains_key(k) implies self.ids@.contains(
                k,
            ) by {
                assert(before.contains_key(k));
            }
        }
        Ok(copy)
    }

    /// Removes the record with id `id`.
    ///
    /// Fails with `NotFound`, changing nothing, when there is no such record.
    pub fn delete(&mut self, id: u32) -> (r: Result<(), StoreError>)
        requires
            old(self).well_formed(),
        ensures
            final(self).well_formed(),
            match r {
                Ok(()) => {
                    &&& old(self)@.contains_key(id)
                    &&& final(self)@ == old(self)@.remove(id)
                    &&& is_delete_step(old(self)@, final(self)@)
                },
                Err(e) => {
                    &&& e == StoreError::NotFound
                    &&& !old(self)@.contains_key(id)
                    &&& final(self)@ == old(self)@
                },
            },
    {
        let ghost before = self.users@;
        let ghost ids_before = self.ids@;
        match self.users.remove(&id) {
            Some(_) => {},
            None => {
                return Err(StoreError::NotFound);
            },
        }
        assert(ids_before.contains(id));
        let mut i: usize = 0;
        while i < self.ids.len() && self.ids[i] != id
            invariant
                self.ids@ == ids_before,
                ids_before.contains(id),
                0 <= i <= self.ids@.len(),
                forall|j: int| 0 <= j < i ==> self.ids@[j] != id,
            decreases self.ids@.len() - i,
        {
            i = i + 1;
        }
        self.ids.remove(i);
        proof {
            let n = ids_before.len();
            assert(self@ =~= before.map_values(|u: User| u@).remove(id));
            assert(old(self)@.contains_key(id) && self@ == old(self)@.remove(id));
            assert forall|j: int| 0 <= j < self.ids@.len() implies #[trigger] self.users@.contains_key(
                self.ids@[j],
            ) by {
                if j < i {
                    assert(self.ids@[j] == ids_before[j]);
                } else {
                    assert(self.ids@[j] == ids_before[j + 1]);
                    assert(ids_before[j + 1] != ids_before[i as int]);
                }
                assert(before.contains_key(self.ids@[j]));
            }
            assert forall|k: u32| #[trigger] self.users@.contains_key(k) implies self.ids@.contains(
                k,
            ) by {
                assert(before.contains_key(k));
                let j = choose|j: int| 0 <= j < n && ids_before[j] == k;
                if j < i {
                    assert(self.ids@[j] == k);
                } else {
                    assert(j != i);
                    assert(self.ids@[j - 1] == k);
                }
            }
            assert forall|a: int, b: int|
                0 <= a < self.ids@.len() && 0 <= b < self.ids@.len() && a != b implies self.ids@[a]
                != self.ids@[b] by {
                let a0 = if a < i { a } else { a + 1 };
                let b0 = if b < i { b } else { b + 1 };
                assert(self.ids@[a] == ids_before[a0]);
                assert(self.ids@[b] == ids_before[b0]);
            }
        }
        Ok(())
    }
}

/// A table whose keys include `k` has a largest key.
proof fn lemma_max_key_exists(m: Map<u32, UserView>, k: u32)
    requires
        m.dom().finite(),
        m.contains_key(k),
    ensures
        exists|c: u32| is_max_key(m, c),
    decreases m.dom().len(),
{
    if !is_max_key(m, k) {
        let j = choose|j: u32| m.contains_key(j) && !(j <= k);
        let smaller = m.remove(k);
        assert(smaller.dom() =~= m.dom().remove(k));
        lemma_max_key_exists(smaller, j);
        let c = choose|c: u32| is_max_key(smaller, c);
        assert(is_max_key(m, c)) by {
            assert forall|x: u32| #[trigger] m.contains_key(x) implies x <= c by {
                if x != k {
                    assert(smaller.contains_key(x));
                } else {
                    assert(smaller.contains_key(j));
                }
            }
        }
    }
}

} // verus!
