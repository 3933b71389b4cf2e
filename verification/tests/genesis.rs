// The behavior of entity allocation, component pools and collection
// components, exercised through the public surface of the store.

use ignition::ComponentPool;
use ignition::EntityConstructor;
use ignition::Scene;

const TAG: usize = 0;
const I32_TAG: usize = 0;
const F32_TAG: usize = 1;
const U32_TAG: usize = 2;

#[test]
fn creating_an_entity_increments_an_id() {
    let mut scene: Scene<i32> = Scene::new();
    let mut entities: Vec<usize> = Vec::new();

    for _i in 0..10 {
        entities.push(scene.entity());
    }

    assert_eq!(vec![0, 1, 2, 3, 4, 5, 6, 7, 8, 9], entities);
}

#[test]
fn creating_an_entity_after_having_deleted_one_uses_recycled_id() {
    let mut scene: Scene<i32> = Scene::new();

    let entity = scene.entity();
    scene.delete(entity).unwrap();

    assert_eq!(0, scene.entity());
}

#[test]
fn creating_new_component_pool_updates_scene() {
    let mut scene: Scene<i32> = Scene::new();

    let entity = scene.entity();
    scene.component(TAG, entity, 34 as i32);

    assert_eq!(
        scene.get(TAG).unwrap().components().iter().collect::<Vec<&i32>>(),
        vec![&34]
    );
}

#[test]
fn assigning_component_updates_scene() {
    let mut scene: Scene<i32> = Scene::new();

    let entity1 = scene.entity();
    scene.component(TAG, entity1, 34 as i32);

    let entity2 = scene.entity();
    scene.component(TAG, entity2, 25 as i32);

    assert_eq!(
        scene.get(TAG).unwrap().components().iter().collect::<Vec<&i32>>(),
        vec![&34, &25]
    );
}

#[test]
fn assigning_already_existing_component_modifies_current_component() {
    let mut scene: Scene<i32> = Scene::new();
    let entity = scene.entity();

    scene.component(TAG, entity, 34 as i32);
    scene.component(TAG, entity, 25 as i32);

    assert_eq!(
        scene.get(TAG).unwrap().components().iter().collect::<Vec<&i32>>(),
        vec![&25]
    );
}

#[test]
fn component_pool_creation_works() {
    let pool = ComponentPool::new_with_entity(3, 32);

    assert_eq!(
        pool,
        ComponentPool {
            num_components: 1,

            sparse_array: vec![-1, -1, -1, 0],
            packed_array: vec![3],
            component_array: vec![32],
        },
    );
}

#[test]
fn assigning_component_updates_component_pool() {
    let mut pool = ComponentPool::new_with_entity(3, 32);
    pool.assign_component(6, 28);

    assert_eq!(
        pool,
        ComponentPool {
            num_components: 2,

            sparse_array: vec![-1, -1, -1, 0, -1, -1, 1],
            packed_array: vec![3, 6],
            component_array: vec![32, 28],
        },
    );
}

#[test]
fn assigning_already_existing_component_does_not_add_component() {
    let mut pool = ComponentPool::new_with_entity(0, 32);
    pool.assign_component(0, 28);

    assert_eq!(
        pool,
        ComponentPool {
            num_components: 1,

            sparse_array: vec![0],
            packed_array: vec![0],
            component_array: vec![28],
        },
    );
}

#[test]
fn prolonging_sparse_array_works_as_intended() {
    let mut sparse_array = vec![-1, -1, 0];
    ComponentPool::<i32>::prolong_sparse_array(5, &mut sparse_array);

    assert_eq!(vec![-1, -1, 0, -1, -1, -1], sparse_array,);
}

#[test]
fn prolonging_sparse_array_with_a_smaller_than_length_id_does_nothing() {
    let mut sparse_array = vec![-1, -1, 0];
    ComponentPool::<i32>::prolong_sparse_array(2, &mut sparse_array);

    assert_eq!(vec![-1, -1, 0], sparse_array,);
}

#[test]
fn creating_new_entity_in_component_pool_works_correctly() {
    let mut pool = ComponentPool::new_with_entity(3, 32);
    pool.create_empty_entity();

    assert_eq!(
        pool,
        ComponentPool {
            num_components: 1,

            sparse_array: vec![-1, -1, -1, 0, -1],
            packed_array: vec![3],
            component_array: vec![32],
        },
    );
}

#[test]
fn creating_vectorized_component_encapsulates_it_in_vector() {
    let mut scene: Scene<i32> = Scene::new();

    let entity = scene.entity();
    scene.vectorized_component(TAG, entity, 34 as i32);

    assert_eq!(scene.vectorized_pool_exists(TAG), true);
}

#[test]
fn adding_to_vectorized_component_pushes_to_vector() {
    let mut scene: Scene<i32> = Scene::new();

    let entity = scene.entity();
    scene.vectorized_component(TAG, entity, 34 as i32);
    scene.vectorized_component(TAG, entity, 59 as i32);

    assert_eq!(
        scene.get_vectorized(TAG).unwrap().components().iter().collect::<Vec<&Vec<i32>>>(),
        vec![&vec![34, 59]]
    );
}

#[test]
fn adding_to_second_vectorized_component_pushes_to_vector() {
    let mut scene: Scene<i32> = Scene::new();

    let entity1 = scene.entity();
    scene.vectorized_component(TAG, entity1, 34 as i32);
    scene.vectorized_component(TAG, entity1, 59 as i32);

    let entity2 = scene.entity();
    scene.vectorized_component(TAG, entity2, 63 as i32);
    scene.vectorized_component(TAG, entity2, 16 as i32);

    assert_eq!(
        scene.get_vectorized(TAG).unwrap().components().iter().collect::<Vec<&Vec<i32>>>(),
        vec![&vec![34, 59], &vec![63, 16]]
    );
}

#[derive(Clone, Debug, PartialEq)]
enum Value {
    I32(i32),
    F32(f32),
    U32(u32),
}

#[test]
fn adding_differently_typed_vectorized_components_does_not_crash() {
    let mut scene: Scene<Value> = Scene::new();

    let entity1 = scene.entity();
    scene.vectorized_component(I32_TAG, entity1, Value::I32(34));
    scene.vectorized_component(F32_TAG, entity1, Value::F32(0.59 as f32));
    scene.vectorized_component(I32_TAG, entity1, Value::I32(81));

    let entity2 = scene.entity();
    scene.vectorized_component(U32_TAG, entity2, Value::U32(63));
    scene.vectorized_component(U32_TAG, entity2, Value::U32(16));

    assert_eq!(
        scene.get_vectorized(I32_TAG).unwrap().components().iter().collect::<Vec<&Vec<Value>>>(),
        vec![&vec![Value::I32(34), Value::I32(81)]]
    );

    assert_eq!(
        scene.get_vectorized(F32_TAG).unwrap().components().iter().collect::<Vec<&Vec<Value>>>(),
        vec![&vec![Value::F32(0.59)]]
    );

    assert_eq!(
        scene.get_vectorized(U32_TAG).unwrap().components().iter().collect::<Vec<&Vec<Value>>>(),
        vec![&vec![Value::U32(63), Value::U32(16)]]
    );
}
