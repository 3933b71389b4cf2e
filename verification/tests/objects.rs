// Drawable objects: vertex counting, index generation and pipeline choice.

use ignition::VglObject;

#[derive(Clone, Copy, Debug, PartialEq)]
struct Vertex {
    position: [f32; 2],
}

#[test]
fn vertices_multiple_of_three_does_not_panic() {
    let vertices = vec![
        Vertex { position: [0.0, -0.5] },
        Vertex { position: [0.5, 0.5] },
        Vertex { position: [-0.5, 0.5] },
    ];

    VglObject::<Vertex>::check_number_of_vertices(&vertices, 3);
}

#[test]
fn vertices_not_multiple_of_three_are_rejected() {
    let vertices = vec![
        Vertex { position: [0.0, -0.5] },
        Vertex { position: [0.5, 0.5] },
        Vertex { position: [-0.5, 0.5] },
        Vertex { position: [0.5, 0.5] },
    ];

    assert!(!VglObject::<Vertex>::check_number_of_vertices(&vertices, 3));
    assert!(VglObject::<Vertex>::check_number_of_vertices(&vertices, 4));
}

#[test]
fn quadrilateral_indices_follow_the_two_triangle_pattern() {
    let mut indices: Vec<u16> = Vec::new();

    VglObject::<Vertex>::generate_quadrilateral_indices(&mut indices, 0);
    VglObject::<Vertex>::generate_quadrilateral_indices(&mut indices, 1);

    assert_eq!(indices, vec![0, 1, 2, 2, 3, 0, 4, 5, 6, 6, 7, 4]);
}

#[test]
fn with_pipeline_sets_only_the_pipeline() {
    let object = VglObject::new(
        Some(vec![Vertex { position: [0.0, 0.0] }]),
        Some(vec![0u16]),
    )
    .with_pipeline(7);

    assert_eq!(object.pipeline_id, 7);
    assert_eq!(object.get_vertices(), &vec![Vertex { position: [0.0, 0.0] }]);
    assert_eq!(object.get_indices(), &vec![0u16]);
}
