use morpheus::binarize::{BinarizedNode, NodeKind};
use morpheus::csg::{Object, OpKind, Primitive, Vec3};

fn sphere(r: f32) -> Object {
    Object::primitive(Primitive::sphere(r.to_bits()))
}

fn cube(s: f32) -> Object {
    let b = s.to_bits();
    Object::primitive(Primitive::cube(Vec3::new(b, b, b)))
}

fn op_node(id: u32, kind: OpKind, left: u32, right: u32) -> BinarizedNode {
    BinarizedNode { id, kind: NodeKind::Operation { kind, left, right } }
}

/// Depth of node `i` found by following child ids, independently of the binarizer.
fn walk_depth(nodes: &[BinarizedNode], i: usize) -> usize {
    match nodes[i].kind {
        NodeKind::Primitive(_) => 1,
        NodeKind::Operation { left, right, .. } => {
            1 + walk_depth(nodes, left as usize).max(walk_depth(nodes, right as usize))
        }
    }
}

#[test]
fn single_sphere_has_one_node() {
    let t = sphere(0.3).binarize().unwrap().unwrap();
    assert_eq!(t.size(), 1);
    assert_eq!(t.height(), 1);
    assert_eq!(t.root_id(), 0);
    assert_eq!(
        t.nodes()[0],
        BinarizedNode { id: 0, kind: NodeKind::Primitive(Primitive::sphere(0.3f32.to_bits())) }
    );
}

#[test]
fn union_of_cube_and_sphere() {
    let t = Object::union(vec![cube(1.0), sphere(0.5)]).binarize().unwrap().unwrap();
    assert_eq!(t.size(), 3);
    assert_eq!(t.height(), 2);
    assert_eq!(t.root_id(), 2);
    let nodes = t.nodes();
    assert!(matches!(nodes[0].kind, NodeKind::Primitive(Primitive::Cube { .. })));
    assert!(matches!(nodes[1].kind, NodeKind::Primitive(Primitive::Sphere { .. })));
    assert_eq!(nodes[2], op_node(2, OpKind::Union, 0, 1));
}

#[test]
fn operands_fold_from_the_left() {
    let t = Object::difference(vec![cube(1.0), sphere(0.1), sphere(0.2)]).binarize().unwrap().unwrap();
    assert_eq!(t.size(), 5);
    assert_eq!(t.height(), 3);
    let nodes = t.nodes();
    assert_eq!(nodes[0].kind, NodeKind::Primitive(Primitive::cube(Vec3::splat(1.0f32.to_bits()))));
    assert_eq!(nodes[1].kind, NodeKind::Primitive(Primitive::sphere(0.1f32.to_bits())));
    assert_eq!(nodes[2], op_node(2, OpKind::Difference, 0, 1));
    assert_eq!(nodes[3].kind, NodeKind::Primitive(Primitive::sphere(0.2f32.to_bits())));
    assert_eq!(nodes[4], op_node(4, OpKind::Difference, 2, 3));
    for (i, n) in nodes.iter().enumerate() {
        assert_eq!(n.id as usize, i);
    }
}

#[test]
fn empty_union_is_none() {
    assert!(Object::union(vec![]).binarize().unwrap().is_none());
    assert!(Object::intersection(vec![Object::union(vec![])]).binarize().unwrap().is_none());
}

#[test]
fn empty_operands_are_skipped() {
    let t = Object::union(vec![Object::union(vec![]), sphere(1.0), Object::difference(vec![])])
        .binarize()
        .unwrap()
        .unwrap();
    assert_eq!(t.size(), 1);
    assert_eq!(t.nodes()[0].kind, NodeKind::Primitive(Primitive::sphere(1.0f32.to_bits())));
}

#[test]
fn single_operand_is_elided() {
    let t = Object::intersection(vec![cube(2.0)]).binarize().unwrap().unwrap();
    assert_eq!(t.size(), 1);
    assert_eq!(t.height(), 1);
}

#[test]
fn folding_gives_two_p_minus_one_nodes() {
    for p in 1..8usize {
        let children: Vec<Object> = (0..p).map(|i| sphere(i as f32)).collect();
        let t = Object::union(children).binarize().unwrap().unwrap();
        assert_eq!(t.size(), p + (p - 1));
    }
}

#[test]
fn nested_tree_size_and_height_match_a_walk() {
    let inner = Object::intersection(vec![cube(1.0), sphere(0.7), sphere(0.2)]);
    let t = Object::union(vec![inner, sphere(0.3), Object::difference(vec![cube(0.5), sphere(0.4)])])
        .binarize()
        .unwrap()
        .unwrap();
    // 6 primitives, so 11 nodes.
    assert_eq!(t.size(), 11);
    let nodes = t.nodes();
    assert_eq!(t.height(), walk_depth(nodes, nodes.len() - 1));
    assert_eq!(t.height(), 5);
}
