use morpheus::buffer::{plan_update, BufferAction, CsgBuffer};
use morpheus::csg::{Object, Primitive, Vec3};
use morpheus::encode::{header_bytes, ByteOrder, NODE_RECORD_SIZE};

fn spheres(p: usize) -> Object {
    Object::union((0..p).map(|i| Object::primitive(Primitive::sphere(i as u32))).collect())
}

#[test]
fn plan_reuses_a_large_enough_buffer() {
    assert_eq!(plan_update(3, 5), BufferAction::Allocate);
    assert_eq!(plan_update(5, 3), BufferAction::WriteInPlace);
    assert_eq!(plan_update(5, 5), BufferAction::WriteInPlace);
    assert_eq!(plan_update(0, 1), BufferAction::Allocate);
}

#[test]
fn new_buffer_is_sized_exactly() {
    let order = ByteOrder::native();
    let (b, u) = CsgBuffer::new(&spheres(2), order).unwrap();
    assert_eq!(u.action, BufferAction::Allocate);
    assert_eq!(b.capacity(), 3);
    assert_eq!(b.node_count(), 3);
    assert_eq!(u.records.len(), 3 * NODE_RECORD_SIZE);
    assert_eq!(u.header, header_bytes(3, order));
}

#[test]
fn growing_reallocates_and_shrinking_writes_in_place() {
    let order = ByteOrder::Little;
    let (mut b, _) = CsgBuffer::new(&spheres(2), order).unwrap();
    assert_eq!(b.capacity(), 3);

    let grow = b.update_csg(&spheres(3), order).unwrap();
    assert_eq!(grow.action, BufferAction::Allocate);
    assert_eq!(b.capacity(), 5);
    assert_eq!(b.node_count(), 5);
    assert_eq!(grow.header, [5, 0, 0, 0]);
    assert_eq!(grow.records.len(), 5 * NODE_RECORD_SIZE);

    let shrink = b.update_csg(&spheres(2), order).unwrap();
    assert_eq!(shrink.action, BufferAction::WriteInPlace);
    assert_eq!(b.capacity(), 5);
    assert_eq!(b.node_count(), 3);
    assert_eq!(shrink.header, [3, 0, 0, 0]);
    assert_eq!(shrink.records.len(), 3 * NODE_RECORD_SIZE);
}

#[test]
fn unallocated_buffer_is_empty() {
    let b = CsgBuffer::unallocated();
    assert_eq!(b.capacity(), 0);
    assert_eq!(b.node_count(), 0);
    let mut b = b;
    let u = b.update_csg(&Object::primitive(Primitive::cube(Vec3::zero())), ByteOrder::Big).unwrap();
    assert_eq!(u.action, BufferAction::Allocate);
    assert_eq!(b.capacity(), 1);
}
