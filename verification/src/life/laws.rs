//! The laws the store obeys, proved over the mathematical model of
//! [`crate::life`].

use vstd::prelude::*;

use crate::life::PoolView;
use crate::life::spec_allocate;
use crate::life::spec_allocate_seq;

verus! {

/// Monotonic fresh allocation: while no id has been recycled, successive
/// allocations issue exactly the consecutive ids starting at the high-water
/// mark — from a new scene, `0, 1, ..., n - 1`.
pub proof fn lemma_monotonic_fresh_allocation(next_fresh: usize, n: nat)
    requires
        next_fresh + n <= usize::MAX,
    ensures
        spec_allocate_seq(next_fresh, Seq::empty(), n) == Seq::new(
            n,
            |i: int| (next_fresh + i) as usize,
        ),
    decreases n,
{
    if n == 0 {
        assert(spec_allocate_seq(next_fresh, Seq::empty(), n) =~= Seq::new(
            n,
            |i: int| (next_fresh + i) as usize,
        ));
    } else {
        lemma_monotonic_fresh_allocation((next_fresh + 1) as usize, (n - 1) as nat);
        assert(spec_allocate_seq(next_fresh, Seq::empty(), n) =~= Seq::new(
            n,
            |i: int| (next_fresh + i) as usize,
        ));
    }
}

/// Recycle before fresh: an allocation made right after an id is recycled
/// returns that very id, not a new high-water one, and leaves the high-water
/// mark where it was.
pub proof fn lemma_recycle_before_fresh(next_fresh: usize, recycled: Seq<usize>, entity: usize)
    ensures
        spec_allocate(next_fresh, recycled.push(entity)).0 == entity,
        spec_allocate(next_fresh, recycled.push(entity)).1 == next_fresh,
        spec_allocate(next_fresh, recycled.push(entity)).2 == recycled,
{
    assert(recycled.push(entity).drop_last() =~= recycled);
}

/// Assignment preserves well-formedness, as long as a pool that must grow
/// has room for one more slot in its sparse index.
pub proof fn lemma_assign_preserves_wf<G>(pool: PoolView<G>, entity: usize, value: G)
    requires
        pool.wf(),
        pool.has(entity) || pool.len() < i32::MAX,
    ensures
        pool.spec_assign(entity, value).wf(),
{
    let assigned = pool.spec_assign(entity, value);
    if !pool.has(entity) {
        let n = pool.owners.len() as int;
        assert forall|i: int| 0 <= i < n implies pool.owners[i] != entity by {
            assert(pool.sparse[pool.owners[i] as int] as int == i);
        }
        assert forall|i: int| 0 <= i < assigned.owners.len() implies {
            &&& (#[trigger] assigned.owners[i]) < assigned.sparse.len()
            &&& assigned.sparse[assigned.owners[i] as int] as int == i
        } by {
            if i < n {
                assert(pool.owners[i] < pool.sparse.len());
                assert(assigned.sparse[assigned.owners[i] as int] == pool.sparse[pool.owners[i] as int]);
            }
        }
        assert forall|k: int| 0 <= k < assigned.sparse.len() implies {
            ||| (#[trigger] assigned.sparse[k]) == -1
            ||| {
                &&& 0 <= assigned.sparse[k] < assigned.owners.len()
                &&& assigned.owners[assigned.sparse[k] as int] as int == k
            }
        } by {
            if k != entity && k < pool.sparse.len() {
                assert(assigned.sparse[k] == pool.sparse[k]);
            }
        }
    }
}

/// Assign-then-read round trip: after a component is assigned to an entity,
/// that entity owns one, and reading it back gives exactly the value
/// assigned.
pub proof fn lemma_assign_then_read<G>(pool: PoolView<G>, entity: usize, value: G)
    requires
        pool.wf(),
    ensures
        pool.spec_assign(entity, value).has(entity),
        pool.spec_assign(entity, value).value_of(entity) == value,
{
}

/// Overwrite semantics: assigning the same kind twice to one entity leaves
/// the entity exactly one component of that kind, equal to the second value,
/// and the second assignment does not grow the pool.
pub proof fn lemma_overwrite<G>(pool: PoolView<G>, entity: usize, first: G, second: G)
    requires
        pool.wf(),
        pool.has(entity) || pool.len() < i32::MAX,
    ensures
        ({
            let once = pool.spec_assign(entity, first);
            let twice = once.spec_assign(entity, second);
            &&& twice.values.len() == once.values.len()
            &&& twice.has(entity)
            &&& twice.value_of(entity) == second
            &&& forall|j: int|
                0 <= j < twice.owners.len() ==> ((#[trigger] twice.owners[j]) == entity <==> j
                    == twice.slot_of(entity))
        }),
{
    let once = pool.spec_assign(entity, first);
    let twice = once.spec_assign(entity, second);
    lemma_assign_preserves_wf(pool, entity, first);
    lemma_assign_then_read(pool, entity, first);
    assert forall|j: int|
        0 <= j < twice.owners.len() implies ((#[trigger] twice.owners[j]) == entity <==> j
            == twice.slot_of(entity)) by {
        assert(once.sparse[once.owners[j] as int] as int == j);
    }
}

/// Append order: two appends to an entity that owns no collection yet build
/// the two-element collection holding the values in assignment order.
pub proof fn lemma_append_builds_in_order<G>(
    pool: PoolView<Seq<G>>,
    entity: usize,
    first: G,
    second: G,
)
    requires
        pool.wf(),
        !pool.has(entity),
        pool.len() < i32::MAX,
    ensures
        ({
            let twice = pool.spec_append_value(entity, first).spec_append_value(entity, second);
            &&& twice.has(entity)
            &&& twice.value_of(entity) == seq![first, second]
        }),
{
    let once = pool.spec_append_value(entity, first);
    lemma_assign_preserves_wf(pool, entity, seq![first]);
    lemma_assign_then_read(pool, entity, seq![first]);
    assert(seq![first].push(second) =~= seq![first, second]);
}

/// Append isolation: appending to one entity's collection leaves every other
/// entity's collection exactly as it was.
pub proof fn lemma_append_isolates_entities<G>(
    pool: PoolView<Seq<G>>,
    entity: usize,
    other: usize,
    value: G,
)
    requires
        pool.wf(),
        entity != other,
        pool.has(other),
    ensures
        pool.spec_append_value(entity, value).has(other),
        pool.spec_append_value(entity, value).value_of(other) == pool.value_of(other),
{
    if pool.has(entity) {
        assert(pool.owners[pool.slot_of(entity)] as int == entity as int);
        assert(pool.owners[pool.slot_of(other)] as int == other as int);
    }
}

/// Sparse padding: giving a component to entity `k` when the sparse index
/// never reached `k` pads every new slot below `k` with "absent" — no other
/// entity is misreported as owning a component, and slots already present
/// keep their occupancy.
pub proof fn lemma_sparse_padding<G>(pool: PoolView<G>, entity: usize, value: G)
    requires
        pool.wf(),
        pool.sparse.len() <= entity,
    ensures
        pool.spec_assign(entity, value).sparse.len() == entity + 1,
        pool.spec_assign(entity, value).has(entity),
        forall|e: usize|
            pool.sparse.len() <= e < entity ==> !(#[trigger] pool.spec_assign(
                entity,
                value,
            ).has(e)),
        forall|e: usize|
            e < pool.sparse.len() ==> (#[trigger] pool.spec_assign(entity, value).has(e))
                == pool.has(e),
{
}

/// Removal compaction: removing an entity's component from a well-formed
/// pool shrinks the dense arrays by exactly one, keeps them well-formed —
/// in particular the sparse entry of the moved last element is re-pointed at
/// its new slot — and leaves every other entity's membership and component
/// value untouched.
pub proof fn lemma_removal_compaction<G>(pool: PoolView<G>, entity: usize)
    requires
        pool.wf(),
        pool.has(entity),
    ensures
        ({
            let removed = pool.spec_remove(entity);
            &&& removed.wf()
            &&& removed.values.len() == pool.values.len() - 1
            &&& !removed.has(entity)
            &&& forall|e: usize| e != entity ==> (#[trigger] removed.has(e)) == pool.has(e)
            &&& forall|e: usize|
                e != entity && pool.has(e) ==> (#[trigger] removed.value_of(e)) == pool.value_of(e)
        }),
{
    let removed = pool.spec_remove(entity);
    let n = pool.owners.len() as int;
    let slot = pool.slot_of(entity);
    let moved = pool.owners.last();
    assert(pool.owners[slot] as int == entity as int);
    assert(pool.sparse[moved as int] as int == n - 1);
    assert forall|i: int| 0 <= i < removed.owners.len() implies {
        &&& (#[trigger] removed.owners[i]) < removed.sparse.len()
        &&& removed.sparse[removed.owners[i] as int] as int == i
    } by {
        assert(pool.sparse[pool.owners[i] as int] as int == i);
        if i != slot {
            assert(removed.owners[i] == pool.owners[i]);
            assert(pool.owners[i] != entity && pool.owners[i] != moved);
        }
    }
    assert forall|k: int| 0 <= k < removed.sparse.len() implies {
        ||| (#[trigger] removed.sparse[k]) == -1
        ||| {
            &&& 0 <= removed.sparse[k] < removed.owners.len()
            &&& removed.owners[removed.sparse[k] as int] as int == k
        }
    } by {
        if k != entity && k != moved as int && pool.sparse[k] != -1 {
            let j = pool.sparse[k] as int;
            assert(0 <= j < n && pool.owners[j] as int == k);
            assert(j != n - 1) by {
                if j == n - 1 {
                    assert(pool.owners[n - 1] as int == k);
                }
            }
            assert(j != slot) by {
                if j == slot {
                    assert(pool.owners[slot] as int == k);
                }
            }
            assert(removed.owners[j] as int == k);
        } else if k == moved as int && k != entity {
            assert(removed.sparse[k] == slot as i32);
            assert(slot != n - 1) by {
                if slot == n - 1 {
                    assert(pool.owners[n - 1] == entity);
                }
            }
            assert(removed.owners[slot] == pool.owners[n - 1]);
        }
    }
    assert forall|e: usize| e != entity implies (#[trigger] removed.has(e)) == pool.has(e) by {
        if e as int == moved as int && e != entity {
            assert(removed.sparse[e as int] == slot as i32);
        }
    }
    assert forall|e: usize|
        e != entity && pool.has(e) implies (#[trigger] removed.value_of(e)) == pool.value_of(
        e,
    ) by {
        let j = pool.sparse[e as int] as int;
        assert(pool.owners[j] as int == e as int);
        if e as int == moved as int {
            assert(slot != n - 1) by {
                if slot == n - 1 {
                    assert(pool.owners[n - 1] == entity);
                }
            }
            assert(removed.sparse[e as int] == slot as i32);
            assert(removed.values[slot] == pool.values[n - 1]);
            assert(j == n - 1);
        } else {
            assert(j != n - 1) by {
                if j == n - 1 {
                    assert(pool.owners[n - 1] as int == e as int);
                }
            }
            assert(j != slot) by {
                if j == slot {
                    assert(pool.owners[slot] as int == e as int);
                }
            }
        }
    }
}

} // verus!

