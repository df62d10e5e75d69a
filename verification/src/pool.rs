use vstd::prelude::*;
use crate::components::Enemy;
use crate::resources::WindowDimensions;
use crate::utilities::Position;

verus! {

/// Index of the first dormant record of a pool; the pool's length if none
/// is dormant.
pub open spec fn first_dormant(pool: Seq<Enemy>) -> int
    decreases pool.len(),
{
    if pool.len() == 0 {
        0
    } else if !pool[0].active {
        0
    } else {
        1 + first_dormant(pool.drop_first())
    }
}

/// The pool after one activation: its first dormant record is active, and a
/// pool without a dormant record is as before.
pub open spec fn with_next_active(pool: Seq<Enemy>) -> Seq<Enemy> {
    let k = first_dormant(pool);
    if k < pool.len() {
        pool.update(k, pool[k].activated())
    } else {
        pool
    }
}

/// The pool with every record dormant.
pub open spec fn all_dormant(pool: Seq<Enemy>) -> Seq<Enemy> {
    Seq::new(pool.len(), |i: int| pool[i].dormant())
}

/// The pool after `n` activations.
pub open spec fn activate_times(pool: Seq<Enemy>, n: nat) -> Seq<Enemy>
    decreases n,
{
    if n == 0 {
        pool
    } else {
        with_next_active(activate_times(pool, (n - 1) as nat))
    }
}

/// Number of active records.
pub open spec fn active_count(pool: Seq<Enemy>) -> nat
    decreases pool.len(),
{
    if pool.len() == 0 {
        0
    } else {
        active_count(pool.drop_last()) + if pool.last().active {
            1nat
        } else {
            0nat
        }
    }
}

/// The positions of the active records, in the pool's order.
pub open spec fn active_positions(pool: Seq<Enemy>) -> Seq<Position>
    decreases pool.len(),
{
    if pool.len() == 0 {
        Seq::empty()
    } else if pool.last().active {
        active_positions(pool.drop_last()).push(pool.last().position)
    } else {
        active_positions(pool.drop_last())
    }
}

/// Every record lies in the arena.
pub open spec fn pool_in_arena(pool: Seq<Enemy>, window: WindowDimensions) -> bool {
    forall|i: int| 0 <= i < pool.len() ==> window.contains(#[trigger] pool[i].position)
}

/// `first_dormant` is what its name says: the records before it are active,
/// and the record at it, if there is one, is dormant.
pub proof fn lemma_first_dormant(pool: Seq<Enemy>)
    ensures
        0 <= first_dormant(pool) <= pool.len(),
        forall|j: int| 0 <= j < first_dormant(pool) ==> (#[trigger] pool[j]).active,
        first_dormant(pool) < pool.len() ==> !pool[first_dormant(pool)].active,
    decreases pool.len(),
{
    if pool.len() > 0 && pool[0].active {
        let rest = pool.drop_first();
        lemma_first_dormant(rest);
        assert forall|j: int| 0 <= j < first_dormant(pool) implies (#[trigger] pool[j]).active by {
            if j > 0 {
                assert(pool[j] == rest[j - 1]);
            }
        }
        if first_dormant(pool) < pool.len() {
            assert(pool[first_dormant(pool)] == rest[first_dormant(rest)]);
        }
    }
}

/// An index with the two properties of `lemma_first_dormant` is
/// `first_dormant`.
pub proof fn lemma_first_dormant_unique(pool: Seq<Enemy>, k: int)
    requires
        0 <= k <= pool.len(),
        forall|j: int| 0 <= j < k ==> (#[trigger] pool[j]).active,
        k < pool.len() ==> !pool[k].active,
    ensures
        k == first_dormant(pool),
{
    lemma_first_dormant(pool);
    let f = first_dormant(pool);
    if f < k {
        assert(pool[f].active);
    } else if k < f {
        assert(pool[k].active);
    }
}

/// The pool after a reset: every record dormant, then the first one active.
pub open spec fn after_reset(pool: Seq<Enemy>) -> Seq<Enemy> {
    with_next_active(all_dormant(pool))
}

/// The pool after every record has made its step of `dt` nanoseconds.
pub open spec fn enemies_after(pool: Seq<Enemy>, dt: nat, window: WindowDimensions) -> Seq<Enemy> {
    Seq::new(pool.len(), |i: int| pool[i].after(dt, window))
}

/// A pool holds no more active records than records, and as many exactly if
/// every record is active.
pub proof fn lemma_active_count_bound(pool: Seq<Enemy>)
    ensures
        active_count(pool) <= pool.len(),
        active_count(pool) == pool.len() <==> forall|i: int|
            0 <= i < pool.len() ==> (#[trigger] pool[i]).active,
        active_count(pool) == 0 <==> forall|i: int|
            0 <= i < pool.len() ==> !(#[trigger] pool[i]).active,
    decreases pool.len(),
{
    if pool.len() > 0 {
        let front = pool.drop_last();
        lemma_active_count_bound(front);
        assert forall|i: int| 0 <= i < front.len() implies front[i] == pool[i] by {}
        if active_count(pool) == pool.len() {
            assert forall|i: int| 0 <= i < pool.len() implies (#[trigger] pool[i]).active by {
                if i < front.len() {
                    assert(front[i].active);
                }
            }
        }
        if active_count(pool) == 0 {
            assert forall|i: int| 0 <= i < pool.len() implies !(#[trigger] pool[i]).active by {
                if i < front.len() {
                    assert(!front[i].active);
                }
            }
        }
        if forall|i: int| 0 <= i < pool.len() ==> (#[trigger] pool[i]).active {
            assert forall|i: int| 0 <= i < front.len() implies (#[trigger] front[i]).active by {
                assert(pool[i].active);
            }
            assert(pool.last() == pool[pool.len() - 1]);
        }
        if forall|i: int| 0 <= i < pool.len() ==> !(#[trigger] pool[i]).active {
            assert forall|i: int| 0 <= i < front.len() implies !(#[trigger] front[i]).active by {
                assert(!pool[i].active);
            }
            assert(pool.last() == pool[pool.len() - 1]);
        }
    }
}

/// Replacing one record changes the count by what the two flags say.
pub proof fn lemma_active_count_update(pool: Seq<Enemy>, k: int, record: Enemy)
    requires
        0 <= k < pool.len(),
    ensures
        active_count(pool.update(k, record)) + (if pool[k].active { 1int } else { 0int })
            == active_count(pool) + (if record.active { 1int } else { 0int }),
    decreases pool.len(),
{
    let changed = pool.update(k, record);
    if k == pool.len() - 1 {
        assert(changed.drop_last() =~= pool.drop_last());
    } else {
        lemma_active_count_update(pool.drop_last(), k, record);
        assert(changed.drop_last() =~= pool.drop_last().update(k, record));
    }
}

/// One activation adds one active record where a dormant one is left, and
/// changes nothing in a pool that is all active.
pub proof fn lemma_activation_count(pool: Seq<Enemy>)
    ensures
        with_next_active(pool).len() == pool.len(),
        active_count(pool) < pool.len() ==> active_count(with_next_active(pool)) == active_count(
            pool,
        ) + 1,
        active_count(pool) == pool.len() ==> with_next_active(pool) == pool,
        (first_dormant(pool) < pool.len()) == (active_count(pool) < pool.len()),
{
    lemma_first_dormant(pool);
    lemma_active_count_bound(pool);
    let k = first_dormant(pool);
    if k < pool.len() {
        lemma_active_count_update(pool, k, pool[k].activated());
    }
}

/// From a pool that is all dormant, `n` activations leave exactly the first
/// `n` records active, as long as the pool holds that many. Position and
/// velocity of every record stay.
pub proof fn lemma_activations_in_order(pool: Seq<Enemy>, n: nat)
    requires
        forall|i: int| 0 <= i < pool.len() ==> !(#[trigger] pool[i]).active,
        n <= pool.len(),
    ensures
        activate_times(pool, n) == Seq::new(
            pool.len(),
            |i: int|
                if i < n {
                    pool[i].activated()
                } else {
                    pool[i]
                },
        ),
        active_count(activate_times(pool, n)) == n,
    decreases n,
{
    let wanted = Seq::new(
        pool.len(),
        |i: int|
            if i < n {
                pool[i].activated()
            } else {
                pool[i]
            },
    );
    if n == 0 {
        assert(pool =~= wanted);
        lemma_active_count_bound(pool);
    } else {
        let m = (n - 1) as nat;
        lemma_activations_in_order(pool, m);
        let before = activate_times(pool, m);
        lemma_first_dormant_unique(before, m as int);
        assert(with_next_active(before) =~= wanted);
        lemma_active_count_update(before, m as int, before[m as int].activated());
    }
}

/// Once every record is active, further activations change nothing.
pub proof fn lemma_activation_of_full_pool(pool: Seq<Enemy>, n: nat)
    requires
        forall|i: int| 0 <= i < pool.len() ==> (#[trigger] pool[i]).active,
    ensures
        activate_times(pool, n) == pool,
    decreases n,
{
    if n > 0 {
        lemma_activation_of_full_pool(pool, (n - 1) as nat);
        lemma_first_dormant_unique(pool, pool.len() as int);
    }
}

/// After a reset exactly the first record is active, however many were
/// before, and every record keeps its position and velocity.
pub proof fn lemma_reset_leaves_one_active(pool: Seq<Enemy>)
    ensures
        after_reset(pool) == Seq::new(
            pool.len(),
            |i: int|
                if i == 0 {
                    pool[i].activated()
                } else {
                    pool[i].dormant()
                },
        ),
        active_count(after_reset(pool)) == if pool.len() > 0 {
            1nat
        } else {
            0nat
        },
{
    let cleared = all_dormant(pool);
    let wanted = Seq::new(
        pool.len(),
        |i: int|
            if i == 0 {
                pool[i].activated()
            } else {
                pool[i].dormant()
            },
    );
    lemma_first_dormant_unique(cleared, 0);
    assert(after_reset(pool) =~= wanted);
    lemma_active_count_bound(cleared);
    if pool.len() > 0 {
        lemma_active_count_update(cleared, 0, cleared[0].activated());
    }
}

/// A second reset changes nothing.
pub proof fn lemma_reset_idempotent(pool: Seq<Enemy>)
    ensures
        after_reset(after_reset(pool)) == after_reset(pool),
{
    lemma_reset_leaves_one_active(pool);
    lemma_reset_leaves_one_active(after_reset(pool));
    assert(after_reset(after_reset(pool)) =~= after_reset(pool));
}

} // verus!
