use morpheus::csg::{Object, Primitive, Quat, Vec3, ONE_BITS};
use morpheus::encode::ByteOrder;
use morpheus::screen_resolution::ScreenResolution;
use morpheus::transform::{CsgRenderer, Transform};

#[test]
fn screen_resolution_bytes() {
    let r = ScreenResolution::new(800, 600);
    assert_eq!(r, ScreenResolution { width: 800, height: 600 });
    let b = r.to_bytes(ByteOrder::native());
    assert_eq!(&b[0..4], &800u32.to_ne_bytes());
    assert_eq!(&b[4..8], &600u32.to_ne_bytes());
    assert_eq!(r.to_bytes(ByteOrder::Big), [0, 0, 3, 32, 0, 0, 2, 88]);
}

#[test]
fn transform_builders() {
    assert_eq!(ONE_BITS, 1.0f32.to_bits());
    let mut t = Transform::origin();
    assert!(t.is_dirty());
    assert_eq!(t.scale(), Vec3::splat(1.0f32.to_bits()));
    assert_eq!(t.rotation(), Quat::identity());
    t.set_clean();
    assert!(!t.is_dirty());
    let p = Vec3::new(1.0f32.to_bits(), 0, 2.0f32.to_bits());
    let q = Quat::new(0, 0.3f32.to_bits(), 0, 0.95f32.to_bits());
    let t = t.at(p).rotated(q);
    assert!(t.is_dirty());
    assert_eq!(t.position(), p);
    assert_eq!(t.rotation(), q);
    assert_eq!(t.scale(), Vec3::splat(ONE_BITS));
}

#[test]
fn csg_renderer_keeps_its_asset() {
    assert_eq!(CsgRenderer::new(42).asset_id(), 42);
}

#[test]
fn primitive_builders() {
    let s = Primitive::sphere(0.3f32.to_bits());
    assert_eq!(s, Primitive::Sphere { radius: 0.3f32.to_bits(), offset: Vec3::zero() });
    let at = Vec3::new(0, 0.2f32.to_bits(), 0);
    assert_eq!(s.at(at), Primitive::Sphere { radius: 0.3f32.to_bits(), offset: at });
    assert_eq!(s.rotated(Quat::new(1, 2, 3, 4)), s);
    let c = Primitive::cube(Vec3::splat(2)).rotated(Quat::new(1, 2, 3, 4)).at(at);
    assert_eq!(c, Primitive::Cube { offset: at, rotation: Quat::new(1, 2, 3, 4), size: Vec3::splat(2) });
    assert!(matches!(Object::primitive(s), Object::Primitive(_)));
}
