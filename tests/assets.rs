use morpheus::asset_map::AssetMap;
use morpheus::assets::{AssetManager, CsgObjectAsset};
use morpheus::buffer::BufferAction;
use morpheus::csg::{Object, Primitive};
use morpheus::encode::ByteOrder;

fn spheres(p: usize) -> Object {
    Object::union((0..p).map(|i| Object::primitive(Primitive::sphere(i as u32))).collect())
}

fn asset(p: usize) -> CsgObjectAsset {
    CsgObjectAsset::new(spheres(p), ByteOrder::native()).unwrap()
}

#[test]
fn staged_value_is_invisible_until_committed() {
    let mut m: AssetMap<String> = AssetMap::new();
    assert!(m.load(1, "a".to_string()).is_none());
    assert!(m.get(1).is_none());
    assert!(m.dirty());
    let staged = m.take_staged();
    assert_eq!(staged.len(), 1);
    assert!(!m.dirty());
    for (k, v) in staged {
        m.commit(k, v);
    }
    assert_eq!(m.get(1).map(|s| s.as_str()), Some("a"));
}

#[test]
fn second_load_replaces_the_staged_value() {
    let mut m = AssetMap::with_asset(4, 10u32);
    assert_eq!(m.load(4, 20), Some(10));
    let staged = m.take_staged();
    assert_eq!(staged, vec![(4, 20)]);
    assert_eq!(m.commit(4, 20), None);
    assert_eq!(m.get(4), Some(&20));
    assert_eq!(m.evict(4), Some(20));
    assert!(m.get(4).is_none());
}

#[test]
fn manager_commits_on_reload() {
    let mut m = AssetManager::new();
    assert!(!m.dirty());
    assert!(m.load(0, asset(1)).is_none());
    assert!(m.get(0).is_none());
    assert!(m.dirty());
    let uploads = m.reload();
    assert!(!m.dirty());
    assert_eq!(uploads.len(), 1);
    assert_eq!(uploads[0].0, 0);
    assert_eq!(uploads[0].1.action, BufferAction::Allocate);
    let a = m.get(0).unwrap();
    assert_eq!(a.node_count(), 1);
    assert_eq!(a.buffer().capacity(), 1);
}

#[test]
fn only_the_last_load_before_reload_becomes_resident() {
    let mut m = AssetManager::new();
    m.load(9, asset(2));
    let first = m.load(9, asset(4));
    assert_eq!(first.unwrap().node_count(), 3);
    let uploads = m.reload();
    assert_eq!(uploads.len(), 1);
    assert_eq!(m.get(9).unwrap().node_count(), 7);
}

#[test]
fn reload_with_nothing_staged_is_a_no_op() {
    let mut m = AssetManager::new();
    assert!(m.reload().is_empty());
    m.load(1, asset(1));
    m.reload();
    assert!(m.reload().is_empty());
    assert_eq!(m.get(1).unwrap().node_count(), 1);
}

#[test]
fn updating_an_asset_reuses_or_grows_its_buffer() {
    let mut m = AssetManager::new();
    m.load(3, asset(2));
    let u = m.reload();
    assert_eq!(u[0].1.action, BufferAction::Allocate);
    assert_eq!(m.get(3).unwrap().buffer().capacity(), 3);

    m.load(3, asset(3));
    let u = m.reload();
    assert_eq!(u[0].1.action, BufferAction::Allocate);
    assert_eq!(m.get(3).unwrap().buffer().capacity(), 5);

    m.load(3, asset(2));
    let u = m.reload();
    assert_eq!(u[0].1.action, BufferAction::WriteInPlace);
    let a = m.get(3).unwrap();
    assert_eq!(a.buffer().capacity(), 5);
    assert_eq!(a.buffer().node_count(), 3);
}

#[test]
fn keys_are_independent() {
    let mut m = AssetManager::new();
    m.load(1, asset(1));
    m.load(2, asset(2));
    let mut keys: Vec<u64> = m.reload().iter().map(|(k, _)| *k).collect();
    keys.sort();
    assert_eq!(keys, vec![1, 2]);
    m.load(2, asset(3));
    let u = m.reload();
    assert_eq!(u.len(), 1);
    assert_eq!(m.get(1).unwrap().node_count(), 1);
    assert_eq!(m.get(2).unwrap().node_count(), 5);
}
