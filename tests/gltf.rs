use courier::gltf::{generate_gltf_colliders, ColliderGenerator, StaticCollider};

fn c(node: usize, mesh: usize, primitive: usize) -> StaticCollider {
    StaticCollider { node, mesh, primitive }
}

#[test]
fn one_collider_per_primitive_per_node() {
    let nodes = vec![Some(0), None, Some(1), Some(0)];
    let prims = vec![2, 1];
    let plan = generate_gltf_colliders(&nodes, &prims);
    assert_eq!(
        plan,
        vec![c(0, 0, 0), c(0, 0, 1), c(2, 1, 0), c(3, 0, 0), c(3, 0, 1)]
    );
}

#[test]
fn nodes_without_mesh_or_primitives_get_no_collider() {
    let nodes = vec![None, Some(0), None];
    let prims = vec![0];
    assert!(generate_gltf_colliders(&nodes, &prims).is_empty());
    assert!(generate_gltf_colliders(&vec![], &vec![]).is_empty());
}

#[test]
fn generator_builds_colliders_once() {
    let nodes = vec![Some(1), Some(0)];
    let prims = vec![1, 3];
    let mut g = ColliderGenerator::new();
    let first = g.generate(&nodes, &prims);
    assert_eq!(first, vec![c(0, 1, 0), c(0, 1, 1), c(0, 1, 2), c(1, 0, 0)]);
    assert!(g.generate(&nodes, &prims).is_empty());
    assert!(g.generate(&nodes, &prims).is_empty());
}
