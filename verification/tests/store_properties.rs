// Scenarios for the store's stated properties: round trips, cross-kind
// isolation, sparse padding, removal compaction, deletion, and each error.

use ignition::ComponentPool;
use ignition::EcsError;
use ignition::Scene;

const TAG: usize = 0;
const OTHER_TAG: usize = 1;

#[derive(Clone, Debug, PartialEq)]
enum Value {
    I32(i32),
    F32(f32),
}

#[test]
fn assign_then_read_round_trip() {
    let mut scene: Scene<i32> = Scene::new();
    let entity = scene.entity();

    scene.component(TAG, entity, 42);

    assert_eq!(scene.get(TAG).unwrap().get_component(entity), Ok(&42));
}

#[test]
fn overwriting_does_not_grow_the_pool() {
    let mut scene: Scene<i32> = Scene::new();
    let entity = scene.entity();

    scene.component(TAG, entity, 1);
    scene.component(TAG, entity, 2);

    let pool = scene.get(TAG).unwrap();
    assert_eq!(pool.num_components, 1);
    assert_eq!(pool.get_component(entity), Ok(&2));
}

#[test]
fn cross_kind_components_stay_isolated() {
    let mut scene: Scene<Value> = Scene::new();
    let entity = scene.entity();

    scene.component(TAG, entity, Value::I32(34));
    scene.component(OTHER_TAG, entity, Value::F32(0.59));

    assert_eq!(
        scene.get(TAG).unwrap().components(),
        &vec![Value::I32(34)]
    );
    assert_eq!(
        scene.get(OTHER_TAG).unwrap().components(),
        &vec![Value::F32(0.59)]
    );
}

#[test]
fn scalar_and_collection_kinds_of_one_tag_stay_isolated() {
    let mut scene: Scene<i32> = Scene::new();
    let entity = scene.entity();

    scene.component(TAG, entity, 7);
    scene.vectorized_component(TAG, entity, 8);

    assert_eq!(scene.get(TAG).unwrap().components(), &vec![7]);
    assert_eq!(
        scene.get_vectorized(TAG).unwrap().components(),
        &vec![vec![8]]
    );
}

#[test]
fn assigning_a_high_entity_pads_lower_slots_with_absent() {
    let pool = ComponentPool::new_with_entity(5, 9);

    assert_eq!(pool.sparse_array, vec![-1, -1, -1, -1, -1, 0]);
    for entity in 0..5 {
        assert!(!pool.has_component(entity));
    }
    assert!(pool.has_component(5));
}

#[test]
fn removing_a_middle_entity_compacts_the_pool() {
    let mut pool = ComponentPool::new_with_entity(0, 10);
    pool.assign_component(1, 11);
    pool.assign_component(2, 12);

    pool.remove_component(1);

    assert_eq!(
        pool,
        ComponentPool {
            num_components: 2,

            sparse_array: vec![0, -1, 1],
            packed_array: vec![0, 2],
            component_array: vec![10, 12],
        },
    );
    assert!(!pool.has_component(1));
    assert_eq!(pool.get_component(0), Ok(&10));
    assert_eq!(pool.get_component(2), Ok(&12));
}

#[test]
fn removing_an_absent_entity_changes_nothing() {
    let mut pool = ComponentPool::new_with_entity(0, 10);
    pool.remove_component(4);

    assert_eq!(pool, ComponentPool::new_with_entity(0, 10));
}

#[test]
fn deleting_an_entity_sweeps_every_pool() {
    let mut scene: Scene<i32> = Scene::new();
    let entity1 = scene.entity();
    let entity2 = scene.entity();

    scene.component(TAG, entity1, 7);
    scene.component(TAG, entity2, 8);
    scene.vectorized_component(TAG, entity1, 9);

    scene.delete(entity1).unwrap();

    assert!(!scene.component_exists(TAG, entity1));
    assert!(scene.component_exists(TAG, entity2));
    assert_eq!(scene.get(TAG).unwrap().components(), &vec![8]);
    assert!(!scene.vectorized_component_exists(TAG, entity1));
    assert_eq!(
        scene.get_vectorized(TAG).unwrap().components(),
        &Vec::<Vec<i32>>::new()
    );
}

#[test]
fn recycled_ids_are_reused_most_recently_freed_first() {
    let mut scene: Scene<i32> = Scene::new();
    let first = scene.entity();
    let second = scene.entity();
    let third = scene.entity();

    scene.delete(first).unwrap();
    scene.delete(third).unwrap();

    assert_eq!(scene.entity(), third);
    assert_eq!(scene.entity(), first);
    assert_eq!(scene.entity(), third + 1);
    assert_eq!(second, 1);
}

#[test]
fn reading_an_unknown_kind_reports_pool_not_found() {
    let scene: Scene<i32> = Scene::new();

    assert_eq!(scene.get(TAG), Err(EcsError::PoolNotFound));
    assert_eq!(scene.get_vectorized(TAG), Err(EcsError::PoolNotFound));
}

#[test]
fn reading_an_absent_component_reports_not_found() {
    let mut scene: Scene<i32> = Scene::new();
    let entity = scene.entity();
    let other = scene.entity();

    scene.component(TAG, entity, 3);

    assert_eq!(scene.get(TAG).unwrap().get_component(other), Err(EcsError::NotFound));
}

#[test]
fn deleting_a_never_issued_entity_reports_invalid_recycle() {
    let mut scene: Scene<i32> = Scene::new();

    assert_eq!(scene.delete(3), Err(EcsError::InvalidRecycle));
}

#[test]
fn deleting_an_entity_twice_reports_invalid_recycle() {
    let mut scene: Scene<i32> = Scene::new();
    let entity = scene.entity();

    scene.delete(entity).unwrap();

    assert_eq!(scene.delete(entity), Err(EcsError::InvalidRecycle));
}

#[test]
fn mutating_through_get_component_mut_updates_the_value() {
    let mut pool = ComponentPool::new_with_entity(0, 1);

    *pool.get_component_mut(0) = 9;

    assert_eq!(pool.get_component(0), Ok(&9));
}

#[test]
fn pool_owners_run_parallel_to_components() {
    let mut pool = ComponentPool::new_with_entity(2, 20);
    pool.assign_component(4, 40);

    assert_eq!(pool.owners(), &vec![2, 4]);
    assert_eq!(pool.components(), &vec![20, 40]);
}
