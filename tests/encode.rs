use morpheus::binarize::{BinarizedNode, NodeKind};
use morpheus::csg::{Object, OpKind, Primitive, Quat, Vec3};
use morpheus::encode::{
    encode, encode_object, header_bytes, load_primitive_data, to_gpu_data, ByteOrder,
    NODE_RECORD_SIZE,
};

fn ne(w: u32) -> [u8; 4] {
    w.to_ne_bytes()
}

#[test]
fn native_order_matches_the_machine() {
    let order = ByteOrder::native();
    assert_eq!(header_bytes(0x0102_0304, order), 0x0102_0304u32.to_ne_bytes());
    let expected = if 1u32.to_ne_bytes()[0] == 1 { ByteOrder::Little } else { ByteOrder::Big };
    assert_eq!(order, expected);
}

#[test]
fn header_in_each_order() {
    assert_eq!(header_bytes(0x0102_0304, ByteOrder::Little), [4, 3, 2, 1]);
    assert_eq!(header_bytes(0x0102_0304, ByteOrder::Big), [1, 2, 3, 4]);
}

#[test]
fn sphere_record_layout() {
    let p = Primitive::sphere(0.3f32.to_bits()).at(Vec3::new(1.0f32.to_bits(), 2.0f32.to_bits(), 3.0f32.to_bits()));
    let node = BinarizedNode { id: 7, kind: NodeKind::Primitive(p) };
    let r = to_gpu_data(&node, ByteOrder::native());
    assert_eq!(r.len(), NODE_RECORD_SIZE);
    assert_eq!(&r[0..4], &ne(7));
    assert_eq!(&r[4..8], &1.0f32.to_ne_bytes());
    assert_eq!(&r[8..12], &2.0f32.to_ne_bytes());
    assert_eq!(&r[12..16], &3.0f32.to_ne_bytes());
    assert_eq!(&r[16..20], &0.3f32.to_ne_bytes());
    assert!(r[20..].iter().all(|b| *b == 0));
}

#[test]
fn cube_record_layout() {
    let f = |x: f32| x.to_bits();
    let p = Primitive::cube(Vec3::new(f(4.0), f(5.0), f(6.0)))
        .at(Vec3::new(f(1.0), f(2.0), f(3.0)))
        .rotated(Quat::new(f(0.1), f(0.2), f(0.3), f(0.9)));
    let node = BinarizedNode { id: 1, kind: NodeKind::Primitive(p) };
    let r = to_gpu_data(&node, ByteOrder::Little);
    let words = [1.0f32, 2.0, 3.0, 0.1, 0.2, 0.3, 0.9, 4.0, 5.0, 6.0];
    assert_eq!(&r[0..4], &[1, 0, 0, 0]);
    for (i, w) in words.iter().enumerate() {
        assert_eq!(&r[4 + 4 * i..8 + 4 * i], &w.to_le_bytes());
    }
    assert!(r[44..].iter().all(|b| *b == 0));
}

#[test]
fn operation_record_has_zero_payload() {
    let node = BinarizedNode { id: 0x0a0b, kind: NodeKind::Operation { kind: OpKind::Union, left: 3, right: 4 } };
    let r = to_gpu_data(&node, ByteOrder::Big);
    assert_eq!(&r[0..4], &[0, 0, 0x0a, 0x0b]);
    assert!(r[4..].iter().all(|b| *b == 0));
}

#[test]
fn load_primitive_data_writes_after_the_id() {
    let mut record = [0xffu8; NODE_RECORD_SIZE];
    load_primitive_data(&Primitive::sphere(0x1122_3344), ByteOrder::Little, &mut record);
    assert_eq!(&record[0..4], &[0xff; 4]);
    assert_eq!(&record[4..16], &[0u8; 12]);
    assert_eq!(&record[16..20], &[0x44, 0x33, 0x22, 0x11]);
    assert!(record[20..].iter().all(|b| *b == 0xff));
}

#[test]
fn single_sphere_scene() {
    let e = encode_object(&Object::primitive(Primitive::sphere(0.3f32.to_bits())), ByteOrder::native()).unwrap();
    assert_eq!(e.node_count, 1);
    assert_eq!(e.records.len(), NODE_RECORD_SIZE);
    assert_eq!(u32::from_ne_bytes(header_bytes(e.node_count, ByteOrder::native())), 1);
    assert_eq!(&e.records[16..20], &0.3f32.to_ne_bytes());
}

#[test]
fn union_records_in_reverse_construction_order() {
    let order = ByteOrder::native();
    let cube = Object::primitive(Primitive::cube(Vec3::splat(1.0f32.to_bits())));
    let sphere = Object::primitive(Primitive::sphere(0.5f32.to_bits()));
    let e = encode_object(&Object::union(vec![cube, sphere]), order).unwrap();
    assert_eq!(e.node_count, 3);
    assert_eq!(e.records.len(), 3 * NODE_RECORD_SIZE);
    let rec = |i: usize| &e.records[i * NODE_RECORD_SIZE..(i + 1) * NODE_RECORD_SIZE];
    // The union (id 2) first, with an all-zero payload.
    assert_eq!(&rec(0)[0..4], &ne(2));
    assert!(rec(0)[4..].iter().all(|b| *b == 0));
    // Then the sphere (id 1), then the cube (id 0).
    assert_eq!(&rec(1)[0..4], &ne(1));
    assert_eq!(&rec(1)[16..20], &0.5f32.to_ne_bytes());
    assert_eq!(&rec(2)[0..4], &ne(0));
    assert_eq!(&rec(2)[32..36], &1.0f32.to_ne_bytes());
}

#[test]
fn empty_tree_encodes_to_one_zero_record() {
    let e = encode(&None, ByteOrder::native());
    assert_eq!(e.records, vec![0u8; NODE_RECORD_SIZE]);
    assert_eq!(e.node_count, 1);
    let e = encode_object(&Object::union(vec![]), ByteOrder::Little).unwrap();
    assert_eq!(e.records, vec![0u8; NODE_RECORD_SIZE]);
    assert_eq!(header_bytes(e.node_count, ByteOrder::Little), [1, 0, 0, 0]);
}

#[test]
fn record_buffer_length_is_count_times_stride() {
    for p in 1..6usize {
        let children: Vec<Object> = (0..p).map(|i| Object::primitive(Primitive::sphere(i as u32))).collect();
        let obj = Object::intersection(children);
        let t = obj.binarize().unwrap();
        let n = t.as_ref().unwrap().size();
        let e = encode(&t, ByteOrder::Big);
        assert_eq!(e.records.len(), n * NODE_RECORD_SIZE);
        assert_eq!(e.node_count as usize, n);
        assert_eq!(u32::from_be_bytes(header_bytes(e.node_count, ByteOrder::Big)) as usize, n);
    }
}
