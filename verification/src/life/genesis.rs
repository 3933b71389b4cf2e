//! Entity creation and component assignment: the executable operations of
//! [`Scene`] and [`ComponentPool`].

use vstd::prelude::*;

use crate::life::ComponentPool;
use crate::life::EcsError;
use crate::life::PoolView;
use crate::life::collection_view;
use crate::life::prolonged;
use crate::life::registry_has;
use crate::life::registry_pool;
use crate::life::registry_wf;
use crate::life::Scene;
use crate::life::spec_allocate;

verus! {

impl<G> ComponentPool<G> {
    /// Whether `entity` owns a component in this pool.
    pub fn has_component(&self, entity: usize) -> (r: bool)
        ensures
            r == self@.has(entity),
    {
        entity < self.sparse_array.len() && self.sparse_array[entity] != -1
    }

    /// Assign a component of this pool's kind to `entity`: overwrite the
    /// current value in place when it already owns one, append to the dense
    /// arrays otherwise.
    pub fn assign_component(&mut self, entity: usize, component: G)
        requires
            old(self).inv(),
            entity < usize::MAX,
            old(self)@.has(entity) || old(self).num_components < i32::MAX,
        ensures
            final(self).inv(),
            final(self)@ == old(self)@.spec_assign(entity, component),
    {
        if self.has_component(entity) {
            let slot = self.sparse_array[entity] as usize;
            self.component_array[slot] = component;
            proof {
                assert(self@ =~= old(self)@.spec_assign(entity, component));
            }
        } else {
            Self::add_entity_to_sparse_array(entity, self.num_components, &mut self.sparse_array);

            self.packed_array.push(entity);
            self.component_array.push(component);
            self.num_components = self.num_components + 1;

            proof {
                let oldv = old(self)@;
                let newv = self@;
                let n = oldv.owners.len() as int;
                assert(newv =~= oldv.spec_assign(entity, component));
                assert forall|i: int| 0 <= i < n implies oldv.owners[i] != entity by {
                    assert(oldv.sparse[oldv.owners[i] as int] as int == i);
                }
                assert forall|i: int| 0 <= i < newv.owners.len() implies {
                    &&& (#[trigger] newv.owners[i]) < newv.sparse.len()
                    &&& newv.sparse[newv.owners[i] as int] as int == i
                } by {
                    if i < n {
                        assert(oldv.owners[i] < oldv.sparse.len());
                        assert(newv.sparse[newv.owners[i] as int] == oldv.sparse[oldv.owners[i] as int]);
                    }
                }
                assert forall|k: int| 0 <= k < newv.sparse.len() implies {
                    ||| (#[trigger] newv.sparse[k]) == -1
                    ||| {
                        &&& 0 <= newv.sparse[k] < newv.owners.len()
                        &&& newv.owners[newv.sparse[k] as int] as int == k
                    }
                } by {
                    if k != entity && k < oldv.sparse.len() {
                        assert(newv.sparse[k] == oldv.sparse[k]);
                    }
                }
            }
        }
    }

    /// Grow `sparse_array` so that `entity` indexes into it, new slots
    /// marked absent; long enough already, it is left untouched.
    pub fn prolong_sparse_array(entity: usize, sparse_array: &mut Vec<i32>)
        requires
            entity < usize::MAX,
        ensures
            final(sparse_array)@ == prolonged(old(sparse_array)@, entity as int),
    {
        while sparse_array.len() < entity + 1
            invariant
                entity < usize::MAX,
                old(sparse_array)@.len() <= sparse_array@.len(),
                sparse_array@.len() <= entity + 1 || sparse_array@.len() == old(
                    sparse_array,
                )@.len(),
                sparse_array@.subrange(0, old(sparse_array)@.len() as int) == old(sparse_array)@,
                forall|j: int|
                    old(sparse_array)@.len() <= j < sparse_array@.len() ==> sparse_array@[j] == -1,
            decreases entity + 1 - sparse_array@.len(),
        {
            sparse_array.push(-1);
        }
        proof {
            assert(sparse_array@ =~= prolonged(old(sparse_array)@, entity as int));
        }
    }

    /// Point the (grown, if need be) sparse array at `value` for `entity`.
    pub fn add_entity_to_sparse_array(entity: usize, value: usize, sparse_array: &mut Vec<i32>)
        requires
            entity < usize::MAX,
            value <= i32::MAX,
        ensures
            final(sparse_array)@ == prolonged(old(sparse_array)@, entity as int).update(
                entity as int,
                value as i32,
            ),
    {
        Self::prolong_sparse_array(entity, sparse_array);
        sparse_array[entity] = value as i32;
    }

    /// The component owned by `entity`, or `NotFound` when it owns none of
    /// this pool's kind.
    pub fn get_component(&self, entity: usize) -> (r: Result<&G, EcsError>)
        requires
            self.inv(),
        ensures
            self@.has(entity) ==> (r matches Ok(c) && *c == self@.value_of(entity)),
            !self@.has(entity) ==> r == Err::<&G, EcsError>(EcsError::NotFound),
    {
        if self.has_component(entity) {
            let slot = self.sparse_array[entity] as usize;
            Ok(&self.component_array[slot])
        } else {
            Err(EcsError::NotFound)
        }
    }

    /// Mutable access to the component owned by `entity`; only an entity
    /// that owns one may be asked for it.  Until the borrow ends, the pool's
    /// value at that slot is whatever the caller leaves behind it.
    pub fn get_component_mut(&mut self, entity: usize) -> (r: &mut G)
        requires
            old(self).inv(),
            old(self)@.has(entity),
        ensures
            *r == old(self)@.value_of(entity),
            final(self)@.sparse == old(self)@.sparse,
            final(self)@.owners == old(self)@.owners,
            final(self)@.values == old(self)@.values.update(
                old(self)@.slot_of(entity),
                *final(r),
            ),
            final(self).num_components == old(self).num_components,
            final(self).inv(),
    {
        let slot = self.sparse_array[entity] as usize;
        &mut self.component_array[slot]
    }

    /// The component values, densely packed in their current slot order.
    pub fn components(&self) -> (r: &Vec<G>)
        ensures
            r@ == self@.values,
    {
        &self.component_array
    }
}

impl<G> ComponentPool<Vec<G>> {
    /// Push `value` onto the collection component owned by `entity`, in place:
    /// the pool keeps its shape, only that one collection grows.
    pub fn push_to_collection(&mut self, entity: usize, value: G)
        requires
            old(self).inv(),
            old(self)@.has(entity),
        ensures
            final(self).inv(),
            final(self)@.sparse == old(self)@.sparse,
            final(self)@.owners == old(self)@.owners,
            collection_view(final(self)@) == collection_view(old(self)@).spec_append_value(
                entity,
                value,
            ),
    {
        let slot = self.sparse_array[entity] as usize;
        let collection = &mut self.component_array[slot];
        collection.push(value);
        proof {
            assert(collection_view(self@).values =~= collection_view(old(self)@).spec_append_value(
                entity,
                value,
            ).values);
            assert(collection_view(self@) =~= collection_view(old(self)@).spec_append_value(
                entity,
                value,
            ));
        }
    }
}

impl<G> ComponentPool<G> {
    /// The entities owning a component in this pool, parallel to
    /// [`Self::components`].
    pub fn owners(&self) -> (r: &Vec<usize>)
        ensures
            r@ == self@.owners,
    {
        &self.packed_array
    }

    /// Drop `entity`'s component, moving the last component into the freed
    /// slot so the dense arrays stay gap-free; a pool in which `entity` owns
    /// nothing is left unchanged.
    pub fn remove_component(&mut self, entity: usize)
        requires
            old(self).inv(),
        ensures
            final(self).inv(),
            final(self)@ == old(self)@.spec_remove(entity),
    {
        if self.has_component(entity) {
            let slot = self.sparse_array[entity] as usize;
            let last = self.num_components - 1;
            let moved_owner = self.packed_array[last];

            let _owner = self.packed_array.swap_remove(slot);
            let _component = self.component_array.swap_remove(slot);
            self.sparse_array[moved_owner] = slot as i32;
            self.sparse_array[entity] = -1;
            self.num_components = last;

            proof {
                let oldv = old(self)@;
                let newv = self@;
                let n = oldv.owners.len() as int;
                assert(newv =~= oldv.spec_remove(entity));
                assert forall|i: int| 0 <= i < newv.owners.len() implies {
                    &&& (#[trigger] newv.owners[i]) < newv.sparse.len()
                    &&& newv.sparse[newv.owners[i] as int] as int == i
                } by {
                    assert(oldv.sparse[oldv.owners[i] as int] as int == i);
                    assert(oldv.sparse[oldv.owners[n - 1] as int] as int == n - 1);
                    if i != slot as int {
                        assert(newv.owners[i] == oldv.owners[i]);
                        assert(oldv.owners[i] != entity && oldv.owners[i] != oldv.owners[n - 1]);
                    }
                }
                assert forall|k: int| 0 <= k < newv.sparse.len() implies {
                    ||| (#[trigger] newv.sparse[k]) == -1
                    ||| {
                        &&& 0 <= newv.sparse[k] < newv.owners.len()
                        &&& newv.owners[newv.sparse[k] as int] as int == k
                    }
                } by {
                    assert(oldv.owners[slot as int] == entity);
                    assert(oldv.sparse[oldv.owners[n - 1] as int] as int == n - 1);
                    if k != entity && k != oldv.owners[n - 1] as int && oldv.sparse[k] != -1 {
                        let j = oldv.sparse[k] as int;
                        assert(0 <= j < n && oldv.owners[j] as int == k);
                        assert(newv.sparse[k] == oldv.sparse[k]);
                        assert(j != n - 1) by {
                            if j == n - 1 {
                                assert(oldv.owners[n - 1] as int == k);
                            }
                        }
                        assert(j != slot as int) by {
                            if j == slot as int {
                                assert(oldv.owners[slot as int] as int == k);
                            }
                        }
                        assert(newv.owners[j] as int == k);
                    } else if k == oldv.owners[n - 1] as int && k != entity {
                        assert(newv.sparse[k] == slot as i32);
                        assert(slot as int != n - 1) by {
                            if slot as int == n - 1 {
                                assert(oldv.owners[n - 1] == entity);
                            }
                        }
                        assert(newv.owners[slot as int] == oldv.owners[n - 1]);
                    }
                }
            }
        }
    }

    /// A pool holding a single component, owned by `entity`.
    pub fn new_with_entity(entity: usize, component: G) -> (pool: ComponentPool<G>)
        requires
            entity < usize::MAX,
        ensures
            pool.inv(),
            pool@ == PoolView::<G>::empty().spec_assign(entity, component),
    {
        let mut sparse_array = Vec::with_capacity(entity + 1);
        Self::add_entity_to_sparse_array(entity, 0, &mut sparse_array);

        let mut packed_array = Vec::new();
        packed_array.push(entity);
        let mut component_array = Vec::new();
        component_array.push(component);

        let pool = ComponentPool { num_components: 1, sparse_array, packed_array, component_array };
        proof {
            let target = PoolView::<G>::empty().spec_assign(entity, component);
            assert(pool@.sparse =~= target.sparse);
            assert(pool@.owners =~= target.owners);
            assert(pool@.values =~= target.values);
            assert(pool@ =~= target);
        }
        pool
    }
}

/// Extending a pool when the world gains an entity.
pub trait EntityConstructor {
    /// Note one more entity in the world without giving it a component:
    /// the sparse index grows by one absent slot.
    fn create_empty_entity(&mut self);
}

impl<G> EntityConstructor for ComponentPool<G> {
    fn create_empty_entity(&mut self)
        ensures
            final(self)@.sparse == old(self)@.sparse.push(-1i32),
            final(self)@.owners == old(self)@.owners,
            final(self)@.values == old(self)@.values,
            final(self).num_components == old(self).num_components,
            old(self).inv() ==> final(self).inv(),
    {
        self.sparse_array.push(-1);
    }
}

/// Put `pool` under `tag`, growing the registry with empty slots as needed;
/// a pool already kept under `tag` is replaced.
fn registry_insert<P>(pools: &mut Vec<Option<ComponentPool<P>>>, tag: usize, pool: ComponentPool<P>)
    requires
        registry_wf(old(pools)@),
        pool.inv(),
    ensures
        registry_wf(final(pools)@),
        registry_has(final(pools)@, tag),
        registry_pool(final(pools)@, tag) == pool,
        forall|t: usize|
            t != tag ==> registry_has(final(pools)@, t) == registry_has(old(pools)@, t),
        forall|t: usize|
            t != tag && registry_has(old(pools)@, t) ==> registry_pool(final(pools)@, t)
                == registry_pool(old(pools)@, t),
        forall|t: int|
            0 <= t < old(pools)@.len() && t != tag ==> final(pools)@[t] == old(pools)@[t],
        forall|t: int|
            old(pools)@.len() <= t < final(pools)@.len() && t != tag ==> final(pools)@[t] is None,
{
    while pools.len() <= tag
        invariant
            old(pools)@.len() <= pools@.len(),
            pools@.len() <= tag + 1 || pools@.len() == old(pools)@.len(),
            forall|j: int| 0 <= j < old(pools)@.len() ==> pools@[j] == old(pools)@[j],
            forall|j: int| old(pools)@.len() <= j < pools@.len() ==> pools@[j] is None,
        decreases tag + 1 - pools@.len(),
    {
        pools.push(None);
    }
    pools[tag] = Some(pool);
}

impl<G> Scene<G> {
    /// A world with no entities and no pools: the first id to issue is 0,
    /// nothing awaits recycling.
    pub fn new() -> (scene: Scene<G>)
        ensures
            scene.inv(),
            scene.next_fresh() == 0,
            scene.free_list() == Seq::<usize>::empty(),
            scene.component_pools@ == Seq::<Option<ComponentPool<G>>>::empty(),
            scene.vector_pools@ == Seq::<Option<ComponentPool<Vec<G>>>>::empty(),
    {
        let mut available_entities = Vec::new();
        available_entities.push(0);

        let scene = Scene { available_entities, component_pools: Vec::new(), vector_pools: Vec::new() };
        proof {
            assert(scene.free_list() =~= Seq::<usize>::empty());
        }
        scene
    }

    /// Issue an entity id: the most recently recycled one when any is
    /// available, the fresh high-water id otherwise.  Exhaustion of the id
    /// space is fatal and unrecoverable, so the precondition rules it out.
    pub fn entity(&mut self) -> (id: usize)
        requires
            old(self).inv(),
            old(self).can_allocate(),
        ensures
            final(self).inv(),
            (id, final(self).next_fresh(), final(self).free_list()) == spec_allocate(
                old(self).next_fresh(),
                old(self).free_list(),
            ),
            final(self).component_pools == old(self).component_pools,
            final(self).vector_pools == old(self).vector_pools,
    {
        if self.available_entities.len() == 1 {
            self.generate_new_entity()
        } else {
            self.use_recycled_entity()
        }
    }

    /// Issue the fresh high-water id and raise the mark past it.
    pub fn generate_new_entity(&mut self) -> (id: usize)
        requires
            old(self).inv(),
            old(self).next_fresh() < usize::MAX,
        ensures
            final(self).inv(),
            id == old(self).next_fresh(),
            final(self).next_fresh() == old(self).next_fresh() + 1,
            final(self).free_list() == old(self).free_list(),
            final(self).component_pools == old(self).component_pools,
            final(self).vector_pools == old(self).vector_pools,
    {
        let id = self.available_entities[0];
        self.available_entities[0] = id + 1;
        proof {
            assert(self.free_list() =~= old(self).free_list());
        }
        id
    }

    /// Issue the most recently recycled id, taking it off the recycle list.
    pub fn use_recycled_entity(&mut self) -> (id: usize)
        requires
            old(self).inv(),
            old(self).free_list().len() > 0,
        ensures
            final(self).inv(),
            id == old(self).free_list().last(),
            final(self).free_list() == old(self).free_list().drop_last(),
            final(self).next_fresh() == old(self).next_fresh(),
            final(self).component_pools == old(self).component_pools,
            final(self).vector_pools == old(self).vector_pools,
    {
        let id = self.available_entities.pop().unwrap();
        proof {
            assert(self.free_list() =~= old(self).free_list().drop_last());
        }
        id
    }

    /// Whether a pool for the scalar component kind `tag` exists.
    pub fn component_pool_exists(&self, tag: usize) -> (r: bool)
        ensures
            r == self.has_pool(tag),
    {
        tag < self.component_pools.len() && self.component_pools[tag].is_some()
    }

    /// Whether `entity` owns a scalar component of kind `tag`.
    pub fn component_exists(&self, tag: usize, entity: usize) -> (r: bool)
        ensures
            r == (self.has_pool(tag) && self.pool(tag).has(entity)),
    {
        if tag < self.component_pools.len() {
            match &self.component_pools[tag] {
                Some(pool) => pool.has_component(entity),
                None => false,
            }
        } else {
            false
        }
    }

    /// The pool of the scalar component kind `tag`, or `PoolNotFound` when
    /// no component of that kind was ever assigned.
    pub fn get(&self, tag: usize) -> (r: Result<&ComponentPool<G>, EcsError>)
        ensures
            self.has_pool(tag) ==> (r matches Ok(pool) && pool@ == self.pool(tag)),
            !self.has_pool(tag) ==> r == Err::<&ComponentPool<G>, EcsError>(EcsError::PoolNotFound),
    {
        if tag < self.component_pools.len() {
            match &self.component_pools[tag] {
                Some(pool) => Ok(pool),
                None => Err(EcsError::PoolNotFound),
            }
        } else {
            Err(EcsError::PoolNotFound)
        }
    }

    /// Assign a scalar component of kind `tag` to `entity` in the existing
    /// pool: overwrite in place when `entity` already owns one of that kind,
    /// append otherwise.
    pub fn assign_component(&mut self, tag: usize, entity: usize, component: G)
        requires
            old(self).inv(),
            old(self).has_pool(tag),
            entity < usize::MAX,
            old(self).pool(tag).has(entity) || old(self).pool(tag).len() < i32::MAX,
        ensures
            final(self).inv(),
            final(self).pool(tag) == old(self).pool(tag).spec_assign(entity, component),
            forall|t: usize| final(self).has_pool(t) == old(self).has_pool(t),
            forall|t: usize|
                t != tag && old(self).has_pool(t) ==> final(self).pool(t) == old(self).pool(t),
            final(self).vector_pools == old(self).vector_pools,
            final(self).available_entities == old(self).available_entities,
    {
        match &mut self.component_pools[tag] {
            Some(pool) => pool.assign_component(entity, component),
            None => {
                proof {
                    assert(false);
                }
            },
        }
        proof {
            let oldp = old(self).component_pools@;
            let newp = self.component_pools@;
            assert forall|t: int|
                0 <= t < newp.len() && (#[trigger] newp[t]) is Some implies newp[t]->Some_0.inv()
            by {
                if t != tag as int {
                    assert(newp[t] == oldp[t]);
                }
            }
            assert(self.available_entities == old(self).available_entities);
            assert(self.free_list() == old(self).free_list());
            assert(self.alloc_inv());
            assert(registry_wf(self.vector_pools@));
        }
    }

    /// Create the pool of the scalar component kind `tag`, holding a single
    /// component owned by `entity`; a pool already under `tag` is replaced.
    pub fn new_component_pool(&mut self, tag: usize, entity: usize, component: G)
        requires
            old(self).inv(),
            entity < usize::MAX,
        ensures
            final(self).inv(),
            final(self).has_pool(tag),
            final(self).pool(tag) == PoolView::<G>::empty().spec_assign(entity, component),
            forall|t: usize| t != tag ==> final(self).has_pool(t) == old(self).has_pool(t),
            forall|t: usize|
                t != tag && old(self).has_pool(t) ==> final(self).pool(t) == old(self).pool(t),
            final(self).vector_pools == old(self).vector_pools,
            final(self).available_entities == old(self).available_entities,
    {
        let pool = ComponentPool::new_with_entity(entity, component);
        registry_insert(&mut self.component_pools, tag, pool);
        proof {
            assert(self.available_entities == old(self).available_entities);
            assert(self.free_list() == old(self).free_list());
            assert(self.alloc_inv());
            assert(registry_wf(self.component_pools@));
            assert(registry_wf(self.vector_pools@));
        }
    }

    /// Give `entity` a scalar component of kind `tag`: the pool is created
    /// on the first assignment of that kind; an entity already owning one
    /// has its value overwritten in place.
    pub fn component(&mut self, tag: usize, entity: usize, component: G)
        requires
            old(self).inv(),
            entity < usize::MAX,
            old(self).has_pool(tag) ==> old(self).pool(tag).has(entity) || old(self).pool(
                tag,
            ).len() < i32::MAX,
        ensures
            final(self).inv(),
            final(self).has_pool(tag),
            final(self).pool(tag) == (if old(self).has_pool(tag) {
                old(self).pool(tag)
            } else {
                PoolView::<G>::empty()
            }).spec_assign(entity, component),
            forall|t: usize| t != tag ==> final(self).has_pool(t) == old(self).has_pool(t),
            forall|t: usize|
                t != tag && old(self).has_pool(t) ==> final(self).pool(t) == old(self).pool(t),
            final(self).vector_pools == old(self).vector_pools,
            final(self).available_entities == old(self).available_entities,
    {
        if self.component_pool_exists(tag) {
            self.assign_component(tag, entity, component);
        } else {
            self.new_component_pool(tag, entity, component);
        }
    }

    /// Whether a pool for the collection component kind `tag` exists.
    pub fn vectorized_pool_exists(&self, tag: usize) -> (r: bool)
        ensures
            r == self.has_vector_pool(tag),
    {
        tag < self.vector_pools.len() && self.vector_pools[tag].is_some()
    }

    /// Whether `entity` owns a collection component of kind `tag`.
    pub fn vectorized_component_exists(&self, tag: usize, entity: usize) -> (r: bool)
        ensures
            r == (self.has_vector_pool(tag) && self.vector_pool(tag).has(entity)),
    {
        if tag < self.vector_pools.len() {
            match &self.vector_pools[tag] {
                Some(pool) => pool.has_component(entity),
                None => false,
            }
        } else {
            false
        }
    }

    /// The pool of the collection component kind `tag`, or `PoolNotFound`
    /// when no collection of that kind was ever started.
    pub fn get_vectorized(&self, tag: usize) -> (r: Result<&ComponentPool<Vec<G>>, EcsError>)
        ensures
            self.has_vector_pool(tag) ==> (r matches Ok(pool) && pool@ == self.vector_pool(tag)),
            !self.has_vector_pool(tag) ==> r == Err::<&ComponentPool<Vec<G>>, EcsError>(
                EcsError::PoolNotFound,
            ),
    {
        if tag < self.vector_pools.len() {
            match &self.vector_pools[tag] {
                Some(pool) => Ok(pool),
                None => Err(EcsError::PoolNotFound),
            }
        } else {
            Err(EcsError::PoolNotFound)
        }
    }

    /// Append `component` to `entity`'s collection of kind `tag`.  The
    /// collection, its pool, or both are created on first use: the kind is
    /// backed by its own pool, wholly separate from the scalar kind of the
    /// same tag.
    pub fn vectorized_component(&mut self, tag: usize, entity: usize, component: G)
        requires
            old(self).inv(),
            entity < usize::MAX,
            old(self).has_vector_pool(tag) ==> old(self).vector_pool(tag).has(entity) || old(
                self,
            ).vector_pool(tag).len() < i32::MAX,
        ensures
            final(self).inv(),
            final(self).has_vector_pool(tag),
            final(self).vector_pool_contents(tag) == (if old(self).has_vector_pool(tag) {
                old(self).vector_pool_contents(tag)
            } else {
                PoolView::<Seq<G>>::empty()
            }).spec_append_value(entity, component),
            forall|t: usize|
                t != tag ==> final(self).has_vector_pool(t) == old(self).has_vector_pool(t),
            forall|t: usize|
                t != tag && old(self).has_vector_pool(t) ==> final(self).vector_pool(t) == old(
                    self,
                ).vector_pool(t),
            final(self).component_pools == old(self).component_pools,
            final(self).available_entities == old(self).available_entities,
    {
        if self.vectorized_component_exists(tag, entity) {
            match &mut self.vector_pools[tag] {
                Some(pool) => pool.push_to_collection(entity, component),
                None => {
                    proof {
                        assert(false);
                    }
                },
            }
        } else if self.vectorized_pool_exists(tag) {
            let mut collection = Vec::new();
            collection.push(component);
            match &mut self.vector_pools[tag] {
                Some(pool) => {
                    pool.assign_component(entity, collection);
                    proof {
                        assert(collection_view(pool@).values =~= collection_view(
                            old(self).vector_pool(tag),
                        ).spec_append_value(entity, component).values);
                        assert(collection_view(pool@) =~= collection_view(
                            old(self).vector_pool(tag),
                        ).spec_append_value(entity, component));
                    }
                },
                None => {
                    proof {
                        assert(false);
                    }
                },
            }
        } else {
            let mut collection = Vec::new();
            collection.push(component);
            let pool = ComponentPool::new_with_entity(entity, collection);
            proof {
                assert(collection_view(pool@).values =~= PoolView::<Seq<G>>::empty(
                ).spec_append_value(entity, component).values);
                assert(collection_view(pool@) =~= PoolView::<Seq<G>>::empty().spec_append_value(
                    entity,
                    component,
                ));
            }
            registry_insert(&mut self.vector_pools, tag, pool);
        }
        proof {
            let oldp = old(self).vector_pools@;
            let newp = self.vector_pools@;
            assert forall|t: int|
                0 <= t < newp.len() && (#[trigger] newp[t]) is Some implies newp[t]->Some_0.inv()
            by {
                if t != tag as int {
                    if t < oldp.len() {
                        assert(newp[t] == oldp[t]);
                    } else {
                        assert(newp[t] is None);
                    }
                }
            }
            assert(self.available_entities == old(self).available_entities);
            assert(self.free_list() == old(self).free_list());
            assert(self.alloc_inv());
            assert(registry_wf(self.component_pools@));
        }
    }

    /// Delete a live entity: its components leave every pool, scalar and
    /// collection alike, and its id joins the recycle list, to be reissued
    /// before any fresh id.  Deleting an id that is not live — never issued,
    /// or deleted already — fails with `InvalidRecycle` and changes nothing.
    pub fn delete(&mut self, entity: usize) -> (r: Result<(), EcsError>)
        requires
            old(self).inv(),
        ensures
            final(self).inv(),
            r is Ok <==> old(self).live(entity),
            !old(self).live(entity) ==> *final(self) == *old(self) && r == Err::<(), EcsError>(
                EcsError::InvalidRecycle,
            ),
            old(self).live(entity) ==> {
                &&& final(self).next_fresh() == old(self).next_fresh()
                &&& final(self).free_list() == old(self).free_list().push(entity)
                &&& final(self).component_pools@.len() == old(self).component_pools@.len()
                &&& final(self).vector_pools@.len() == old(self).vector_pools@.len()
                &&& forall|t: usize| final(self).has_pool(t) == old(self).has_pool(t)
                &&& forall|t: usize|
                    old(self).has_pool(t) ==> final(self).pool(t) == old(self).pool(
                        t,
                    ).spec_remove(entity)
                &&& forall|t: usize|
                    final(self).has_vector_pool(t) == old(self).has_vector_pool(t)
                &&& forall|t: usize|
                    old(self).has_vector_pool(t) ==> final(self).vector_pool(t) == old(
                        self,
                    ).vector_pool(t).spec_remove(entity)
            },
    {
        if entity >= self.available_entities[0] {
            return Err(EcsError::InvalidRecycle);
        }
        let mut i: usize = 1;
        while i < self.available_entities.len()
            invariant
                old(self).inv(),
                entity < old(self).next_fresh(),
                1 <= i <= self.available_entities@.len(),
                self.available_entities == old(self).available_entities,
                self.component_pools == old(self).component_pools,
                self.vector_pools == old(self).vector_pools,
                forall|j: int| 0 <= j < i - 1 ==> old(self).free_list()[j] != entity,
            decreases self.available_entities@.len() - i,
        {
            if self.available_entities[i] == entity {
                proof {
                    assert(old(self).free_list()[i - 1] == entity);
                    assert(self.free_list() == old(self).free_list());
                    assert(self.alloc_inv());
                }
                return Err(EcsError::InvalidRecycle);
            }
            i = i + 1;
        }
        proof {
            assert(!old(self).free_list().contains(entity));
            assert(old(self).live(entity));
        }

        let mut t: usize = 0;
        while t < self.component_pools.len()
            invariant
                old(self).inv(),
                entity < old(self).next_fresh(),
                !old(self).free_list().contains(entity),
                t <= self.component_pools@.len(),
                self.component_pools@.len() == old(self).component_pools@.len(),
                self.available_entities == old(self).available_entities,
                self.vector_pools == old(self).vector_pools,
                registry_wf(old(self).component_pools@),
                forall|u: int|
                    0 <= u < self.component_pools@.len() ==> ((#[trigger] self.component_pools@[u])
                        is Some <==> old(self).component_pools@[u] is Some),
                forall|u: int|
                    0 <= u < self.component_pools@.len() && (#[trigger] self.component_pools@[u])
                        is Some ==> self.component_pools@[u]->Some_0.inv(),
                forall|u: int|
                    0 <= u < t && old(self).component_pools@[u] is Some ==> (
                    #[trigger] self.component_pools@[u])->Some_0@ == old(
                        self,
                    ).component_pools@[u]->Some_0@.spec_remove(entity),
                forall|u: int|
                    t <= u < self.component_pools@.len() ==> (#[trigger] self.component_pools@[u])
                        == old(self).component_pools@[u],
            decreases self.component_pools@.len() - t,
        {
            match &mut self.component_pools[t] {
                Some(pool) => pool.remove_component(entity),
                None => {
                },
            }
            t = t + 1;
        }

        let ghost swept_scalars = self.component_pools@;
        let mut t: usize = 0;
        while t < self.vector_pools.len()
            invariant
                old(self).inv(),
                entity < old(self).next_fresh(),
                !old(self).free_list().contains(entity),
                t <= self.vector_pools@.len(),
                self.vector_pools@.len() == old(self).vector_pools@.len(),
                self.available_entities == old(self).available_entities,
                self.component_pools@ == swept_scalars,
                registry_wf(old(self).vector_pools@),
                forall|u: int|
                    0 <= u < self.vector_pools@.len() ==> ((#[trigger] self.vector_pools@[u])
                        is Some <==> old(self).vector_pools@[u] is Some),
                forall|u: int|
                    0 <= u < self.vector_pools@.len() && (#[trigger] self.vector_pools@[u])
                        is Some ==> self.vector_pools@[u]->Some_0.inv(),
                forall|u: int|
                    0 <= u < t && old(self).vector_pools@[u] is Some ==> (
                    #[trigger] self.vector_pools@[u])->Some_0@ == old(
                        self,
                    ).vector_pools@[u]->Some_0@.spec_remove(entity),
                forall|u: int|
                    t <= u < self.vector_pools@.len() ==> (#[trigger] self.vector_pools@[u]) == old(
                        self,
                    ).vector_pools@[u],
            decreases self.vector_pools@.len() - t,
        {
            match &mut self.vector_pools[t] {
                Some(pool) => pool.remove_component(entity),
                None => {
                },
            }
            t = t + 1;
        }

        self.available_entities.push(entity);
        proof {
            assert(self.free_list() =~= old(self).free_list().push(entity));
            assert(self.next_fresh() == old(self).next_fresh());
            assert(self.alloc_inv());
        }
        Ok(())
    }
}

} // verus!
