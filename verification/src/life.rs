//! The data model of the store: scenes, sparse-set component pools, and the
//! mathematical views that the contracts are stated over.

use vstd::prelude::*;

pub mod genesis;
pub mod laws;

verus! {

/// The failures the store can report.
#[derive(Clone, Copy, Debug, PartialEq, Eq, Structural)]
pub enum EcsError {
    /// The entity has no component of the requested kind in this pool.
    NotFound,
    /// No pool for the requested component kind has ever been created.
    PoolNotFound,
    /// The entity given to `Scene::delete` is not currently live: it was
    /// never issued, or it has already been deleted.
    InvalidRecycle,
}

/// A sparse-set pool holding every component of one kind.
///
/// `component_array` keeps the component values densely packed, in assignment
/// order; `packed_array` is parallel to it and names the entity owning each
/// value.  `sparse_array` is indexed directly by entity id and holds the slot
/// of that entity's component, or `-1` when the entity has none.
#[derive(Debug, PartialEq)]
pub struct ComponentPool<G> {
    pub num_components: usize,

    pub sparse_array: Vec<i32>,
    pub packed_array: Vec<usize>,
    pub component_array: Vec<G>,
}

/// The mathematical content of a pool: the sparse index, the owning entities
/// and the component values, as sequences.
#[verifier::ext_equal]
pub struct PoolView<G> {
    pub sparse: Seq<i32>,
    pub owners: Seq<usize>,
    pub values: Seq<G>,
}

/// `sparse` grown so that `entity` is a valid index, newly created slots
/// marked absent; a sparse array long enough already is left as it is.
pub open spec fn prolonged(sparse: Seq<i32>, entity: int) -> Seq<i32> {
    if entity < sparse.len() {
        sparse
    } else {
        sparse + Seq::new((entity + 1 - sparse.len()) as nat, |_j: int| -1i32)
    }
}

impl<G> PoolView<G> {
    /// The view of a pool no component was ever assigned to.
    pub open spec fn empty() -> Self {
        PoolView { sparse: Seq::empty(), owners: Seq::empty(), values: Seq::empty() }
    }

    /// How many components the pool holds.
    pub open spec fn len(self) -> nat {
        self.owners.len()
    }

    /// Whether `entity` owns a component in this pool.
    pub open spec fn has(self, entity: usize) -> bool {
        entity < self.sparse.len() && self.sparse[entity as int] != -1
    }

    /// The dense slot of `entity`'s component.
    pub open spec fn slot_of(self, entity: usize) -> int {
        self.sparse[entity as int] as int
    }

    /// The component value owned by `entity`.
    pub open spec fn value_of(self, entity: usize) -> G {
        self.values[self.slot_of(entity)]
    }

    /// Well-formedness: the dense arrays run in parallel, every owner's
    /// sparse entry points back at its slot, and every non-absent sparse
    /// entry names a slot owned by that very entity.  Slots are stored as
    /// `i32`, so the pool never holds more than `i32::MAX` components.
    pub open spec fn wf(self) -> bool {
        &&& self.values.len() == self.owners.len()
        &&& self.owners.len() <= i32::MAX
        &&& forall|i: int|
            0 <= i < self.owners.len() ==> {
                &&& (#[trigger] self.owners[i]) < self.sparse.len()
                &&& self.sparse[self.owners[i] as int] as int == i
            }
        &&& forall|k: int|
            0 <= k < self.sparse.len() ==> {
                ||| (#[trigger] self.sparse[k]) == -1
                ||| {
                    &&& 0 <= self.sparse[k] < self.owners.len()
                    &&& self.owners[self.sparse[k] as int] as int == k
                }
            }
    }

    /// Assignment: overwrite in place when `entity` already owns a component
    /// of this kind, otherwise append to the dense arrays and point the
    /// (possibly grown) sparse array at the new last slot.
    pub open spec fn spec_assign(self, entity: usize, value: G) -> Self {
        if self.has(entity) {
            PoolView {
                sparse: self.sparse,
                owners: self.owners,
                values: self.values.update(self.slot_of(entity), value),
            }
        } else {
            PoolView {
                sparse: prolonged(self.sparse, entity as int).update(
                    entity as int,
                    self.owners.len() as i32,
                ),
                owners: self.owners.push(entity),
                values: self.values.push(value),
            }
        }
    }

    /// Removal by swap-and-pop: the last component moves into the freed slot
    /// so the dense arrays stay gap-free; a pool without `entity` is
    /// unchanged.
    pub open spec fn spec_remove(self, entity: usize) -> Self {
        if !self.has(entity) {
            self
        } else {
            let slot = self.slot_of(entity);
            let moved = self.owners.last();
            PoolView {
                sparse: self.sparse.update(moved as int, slot as i32).update(entity as int, -1i32),
                owners: self.owners.update(slot, moved).drop_last(),
                values: self.values.update(slot, self.values.last()).drop_last(),
            }
        }
    }
}

impl<G> PoolView<Seq<G>> {
    /// Appending to a collection component: push onto the collection owned by
    /// `entity` when there is one, otherwise assign a fresh one-element
    /// collection.
    pub open spec fn spec_append_value(self, entity: usize, value: G) -> Self {
        if self.has(entity) {
            PoolView {
                sparse: self.sparse,
                owners: self.owners,
                values: self.values.update(
                    self.slot_of(entity),
                    self.values[self.slot_of(entity)].push(value),
                ),
            }
        } else {
            self.spec_assign(entity, seq![value])
        }
    }
}

impl<G> View for ComponentPool<G> {
    type V = PoolView<G>;

    open spec fn view(&self) -> PoolView<G> {
        PoolView {
            sparse: self.sparse_array@,
            owners: self.packed_array@,
            values: self.component_array@,
        }
    }
}

impl<G> ComponentPool<G> {
    /// The pool invariant: a well-formed view whose component count is
    /// cached correctly.
    pub open spec fn inv(self) -> bool {
        &&& self@.wf()
        &&& self.num_components == self.packed_array@.len()
    }
}

/// A pool of collections, seen through the contents of each collection.
pub open spec fn collection_view<G>(pv: PoolView<Vec<G>>) -> PoolView<Seq<G>> {
    PoolView {
        sparse: pv.sparse,
        owners: pv.owners,
        values: pv.values.map(|_i: int, c: Vec<G>| c@),
    }
}

/// Whether a registry has a pool under `tag`.
pub open spec fn registry_has<P>(pools: Seq<Option<ComponentPool<P>>>, tag: usize) -> bool {
    tag < pools.len() && pools[tag as int] is Some
}

/// The pool a registry keeps under `tag`.
pub open spec fn registry_pool<P>(pools: Seq<Option<ComponentPool<P>>>, tag: usize) -> ComponentPool<
    P,
> {
    pools[tag as int]->Some_0
}

/// Every pool of the registry satisfies the pool invariant.
pub open spec fn registry_wf<P>(pools: Seq<Option<ComponentPool<P>>>) -> bool {
    forall|t: int|
        0 <= t < pools.len() && (#[trigger] pools[t]) is Some ==> pools[t]->Some_0.inv()
}

/// One allocation step: take the most recently recycled id when one is
/// available, otherwise issue the fresh high-water id and raise the mark.
/// Returns the id issued, the new high-water mark and the new recycle list.
pub open spec fn spec_allocate(next_fresh: usize, recycled: Seq<usize>) -> (usize, usize, Seq<
    usize,
>) {
    if recycled.len() == 0 {
        (next_fresh, (next_fresh + 1) as usize, recycled)
    } else {
        (recycled.last(), next_fresh, recycled.drop_last())
    }
}

/// The ids issued by `n` successive allocation steps.
pub open spec fn spec_allocate_seq(next_fresh: usize, recycled: Seq<usize>, n: nat) -> Seq<usize>
    decreases n,
{
    if n == 0 {
        Seq::empty()
    } else {
        let (id, next2, recycled2) = spec_allocate(next_fresh, recycled);
        seq![id] + spec_allocate_seq(next2, recycled2, (n - 1) as nat)
    }
}

/// The world: one entity allocator and one registry of pools per component
/// kind.  Component kinds are named by small integer tags chosen by the
/// caller; a tag indexes the registry directly.  Scalar components and
/// collection components live in separate registries, so the same tag may
/// name a scalar kind and a collection kind without interference.
pub struct Scene<G> {
    /// Slot 0 holds the never-yet-issued high-water id; the remaining slots
    /// are the recycled ids, most recently freed last.
    pub available_entities: Vec<usize>,

    pub component_pools: Vec<Option<ComponentPool<G>>>,
    pub vector_pools: Vec<Option<ComponentPool<Vec<G>>>>,
}

impl<G> Scene<G> {
    /// The lowest entity id never yet issued.
    pub open spec fn next_fresh(self) -> usize {
        self.available_entities@[0]
    }

    /// The recycled ids awaiting reuse, most recently freed last.
    pub open spec fn free_list(self) -> Seq<usize> {
        self.available_entities@.skip(1)
    }

    /// An id is live when it has been issued and not deleted since.
    pub open spec fn live(self, entity: usize) -> bool {
        entity < self.next_fresh() && !self.free_list().contains(entity)
    }

    /// Allocation succeeds unless the id space is exhausted.
    pub open spec fn can_allocate(self) -> bool {
        self.free_list().len() > 0 || self.next_fresh() < usize::MAX
    }

    pub open spec fn has_pool(self, tag: usize) -> bool {
        registry_has(self.component_pools@, tag)
    }

    pub open spec fn pool(self, tag: usize) -> PoolView<G> {
        registry_pool(self.component_pools@, tag)@
    }

    pub open spec fn has_vector_pool(self, tag: usize) -> bool {
        registry_has(self.vector_pools@, tag)
    }

    pub open spec fn vector_pool(self, tag: usize) -> PoolView<Vec<G>> {
        registry_pool(self.vector_pools@, tag)@
    }

    /// The collection pool under `tag`, seen through each collection's
    /// contents.
    pub open spec fn vector_pool_contents(self, tag: usize) -> PoolView<Seq<G>> {
        collection_view(self.vector_pool(tag))
    }

    /// The allocator invariant: the high-water slot exists, and every
    /// recycled id was issued before and sits in the list exactly once.
    pub open spec fn alloc_inv(self) -> bool {
        &&& self.available_entities@.len() >= 1
        &&& forall|i: int|
            0 <= i < self.free_list().len() ==> (#[trigger] self.free_list()[i])
                < self.next_fresh()
        &&& forall|i: int, j: int|
            0 <= i < j < self.free_list().len() ==> self.free_list()[i] != self.free_list()[j]
    }

    /// The scene invariant: a sound allocator and well-formed pools.
    pub open spec fn inv(self) -> bool {
        &&& self.alloc_inv()
        &&& registry_wf(self.component_pools@)
        &&& registry_wf(self.vector_pools@)
    }
}

} // verus!
