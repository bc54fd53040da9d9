use vstd::prelude::*;

use crate::store::{is_max_key, next_id, seed_users};
use crate::user::{apply_update, UpdateUserRequest, UserView};

verus! {

/// `b` is `a` with one record added under a key that `a` did not hold.
pub open spec fn is_create_step(a: Map<u32, UserView>, b: Map<u32, UserView>) -> bool {
    exists|k: u32, u: UserView| #![trigger a.insert(k, u)] !a.contains_key(k) && b == a.insert(k, u)
}

/// `b` is `a` with one of its records removed.
pub open spec fn is_delete_step(a: Map<u32, UserView>, b: Map<u32, UserView>) -> bool {
    exists|k: u32| #![trigger a.remove(k)] a.contains_key(k) && b == a.remove(k)
}

/// `b` holds the same keys as `a`: a read, an update, or a failed operation.
pub open spec fn is_keep_step(a: Map<u32, UserView>, b: Map<u32, UserView>) -> bool {
    a.dom() == b.dom()
}

/// A run of table states, each following from the one before by one operation.
pub open spec fn is_run(h: Seq<Map<u32, UserView>>) -> bool {
    forall|i: int|
        0 <= i < h.len() - 1 ==> is_create_step(#[trigger] h[i], h[i + 1]) || is_delete_step(
            h[i],
            h[i + 1],
        ) || is_keep_step(h[i], h[i + 1])
}

/// The number of successful creates in the run `h`.
pub open spec fn count_creates(h: Seq<Map<u32, UserView>>) -> nat
    decreases h.len(),
{
    if h.len() < 2 {
        0
    } else {
        count_creates(h.drop_last()) + if is_create_step(h[h.len() - 2], h[h.len() - 1]) {
            1nat
        } else {
            0nat
        }
    }
}

/// The number of successful deletes in the run `h`.
pub open spec fn count_deletes(h: Seq<Map<u32, UserView>>) -> nat
    decreases h.len(),
{
    if h.len() < 2 {
        0
    } else {
        count_deletes(h.drop_last()) + if is_delete_step(h[h.len() - 2], h[h.len() - 1]) {
            1nat
        } else {
            0nat
        }
    }
}

/// Over any run that starts from a table with finitely many records, the
/// number of records at the end is the number at the start plus the
/// successful creates minus the successful deletes.
pub proof fn lemma_count_follows_run(h: Seq<Map<u32, UserView>>)
    requires
        h.len() > 0,
        h[0].dom().finite(),
        is_run(h),
    ensures
        h.last().dom().finite(),
        h.last().len() + count_deletes(h) == h[0].len() + count_creates(h),
    decreases h.len(),
{
    if h.len() >= 2 {
        let p = h.drop_last();
        assert(is_run(p)) by {
            assert forall|i: int| 0 <= i < p.len() - 1 implies is_create_step(#[trigger] p[i], p[i + 1])
                || is_delete_step(p[i], p[i + 1]) || is_keep_step(p[i], p[i + 1]) by {
                assert(p[i] == h[i] && p[i + 1] == h[i + 1]);
            }
        }
        lemma_count_follows_run(p);
        let a = h[h.len() - 2];
        let b = h[h.len() - 1];
        assert(p.last() == a);
        assert(is_create_step(a, b) || is_delete_step(a, b) || is_keep_step(a, b));
        if is_create_step(a, b) {
            let (k, u) = choose|k: u32, u: UserView| !a.contains_key(k) && b == a.insert(k, u);
            assert(b.dom() == a.dom().insert(k));
            assert(!is_delete_step(a, b)) by {
                if is_delete_step(a, b) {
                    let j = choose|j: u32| a.contains_key(j) && b == a.remove(j);
                    assert(b.dom() == a.dom().remove(j));
                }
            }
        } else if is_delete_step(a, b) {
            let j = choose|j: u32| a.contains_key(j) && b == a.remove(j);
            assert(b.dom() == a.dom().remove(j));
        } else {
            assert(b.dom() == a.dom());
        }
    }
}

/// The table that a store starts with holds three records.
pub proof fn lemma_seed_count()
    ensures
        seed_users().dom().finite(),
        seed_users().len() == 3,
{
    assert(seed_users().dom() =~= set![1u32, 2u32, 3u32]);
    assert(set![1u32, 2u32, 3u32].len() == 3) by {
        assert(set![1u32, 2u32, 3u32] =~= Set::empty().insert(1u32).insert(2u32).insert(3u32));
    }
}

/// Over any run from the seeded table, the number of records (the length of a
/// listing) is three plus the successful creates minus the successful deletes.
///
/// Each completed handler call, serialised by the table's lock, is one step of
/// such a run: a `create_user` that answers 201 is exactly a create step, a
/// `delete_user` that answers 200 exactly a delete step, and every other call
/// keeps the set of ids.
pub proof fn lemma_count_from_seed(h: Seq<Map<u32, UserView>>)
    requires
        h.len() > 0,
        h[0] == seed_users(),
        is_run(h),
    ensures
        h.last().len() + count_deletes(h) == 3 + count_creates(h),
{
    lemma_seed_count();
    lemma_count_follows_run(h);
}

/// After an update that supplies only a name, the record under that id holds
/// the new name and keeps its id, email, age and creation time.
pub proof fn lemma_update_name_then_get(m: Map<u32, UserView>, id: u32, req: UpdateUserRequest)
    requires
        m.contains_key(id),
        req.name is Some,
        req.email is None,
        req.age is None,
    ensures
        ({
            let after = m.insert(id, apply_update(m[id], req));
            &&& after.contains_key(id)
            &&& after[id].name == req.name->Some_0@
            &&& after[id].id == m[id].id
            &&& after[id].email == m[id].email
            &&& after[id].age == m[id].age
            &&& after[id].created_at == m[id].created_at
        }),
{
}

/// After a delete of `id`, no record has that id.
pub proof fn lemma_delete_then_get(m: Map<u32, UserView>, id: u32)
    ensures
        !m.remove(id).contains_key(id),
{
}

/// In a table whose ids are exactly 1 to `n`, the next id is `n + 1`; so
/// creates on an empty table hand out 1, 2, 3, ... in turn.
pub proof fn lemma_next_id_of_dense(m: Map<u32, UserView>, n: u32)
    requires
        forall|k: u32| #[trigger] m.contains_key(k) <==> 1 <= k <= n,
    ensures
        next_id(m) == n + 1,
{
    if n == 0 {
        assert forall|k: u32| !is_max_key(m, k) by {
            assert(!m.contains_key(k));
        }
    } else {
        assert(is_max_key(m, n));
        let c = choose|k: u32| is_max_key(m, k);
        assert(c <= n && n <= c);
    }
}

/// Each create on a table with ids 1 to `n` yields one with ids 1 to `n + 1`.
pub proof fn lemma_create_keeps_dense(m: Map<u32, UserView>, n: u32, u: UserView)
    requires
        forall|k: u32| #[trigger] m.contains_key(k) <==> 1 <= k <= n,
        n < u32::MAX,
        u.id == next_id(m),
    ensures
        forall|k: u32| #[trigger] m.insert(u.id, u).contains_key(k) <==> 1 <= k <= n + 1,
{
    lemma_next_id_of_dense(m, n);
}

/// Over any run of successful creates on an empty table, serialised in any
/// order, the create made `i`-th receives id `i + 1`; the table ends with the
/// ids 1 to N exactly, each holding the record that its create returned.
pub proof fn lemma_creates_from_empty(h: Seq<Map<u32, UserView>>, made: Seq<UserView>)
    requires
        h.len() == made.len() + 1,
        h[0] == Map::<u32, UserView>::empty(),
        made.len() < u32::MAX,
        forall|i: int|
            0 <= i < made.len() ==> (#[trigger] made[i]).id == next_id(h[i]) && h[i + 1]
                == h[i].insert(made[i].id, made[i]),
    ensures
        forall|i: int| 0 <= i < made.len() ==> (#[trigger] made[i]).id == i + 1,
        forall|k: u32| #[trigger] h.last().contains_key(k) <==> 1 <= k <= made.len(),
        h.last().dom().finite(),
        h.last().len() == made.len(),
        forall|i: int| 0 <= i < made.len() ==> h.last()[(#[trigger] made[i]).id] == made[i],
    decreases made.len(),
{
    if made.len() == 0 {
        assert(h.last() == h[0]);
    } else {
        let n = made.len() - 1;
        let hp = h.drop_last();
        let mp = made.drop_last();
        assert forall|i: int| 0 <= i < mp.len() implies (#[trigger] mp[i]).id == next_id(hp[i])
            && hp[i + 1] == hp[i].insert(mp[i].id, mp[i]) by {
            assert(mp[i] == made[i] && hp[i] == h[i] && hp[i + 1] == h[i + 1]);
        }
        lemma_creates_from_empty(hp, mp);
        let before = h[n];
        assert(hp.last() == before);
        lemma_next_id_of_dense(before, n as u32);
        lemma_create_keeps_dense(before, n as u32, made[n]);
        assert(made[n].id == n + 1);
        assert(h.last() == before.insert(made[n].id, made[n]));
        assert(!before.contains_key(made[n].id));
        assert(h.last().dom() =~= before.dom().insert(made[n].id));
        assert forall|i: int| 0 <= i < made.len() implies (#[trigger] made[i]).id == i + 1 by {
            if i < n {
                assert(mp[i] == made[i]);
            }
        }
        assert forall|i: int| 0 <= i < made.len() implies h.last()[(#[trigger] made[i]).id]
            == made[i] by {
            if i < n {
                assert(mp[i] == made[i]);
                assert(before[mp[i].id] == mp[i]);
            }
        }
    }
}

} // verus!
