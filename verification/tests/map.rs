use merk::{JsMapBuilder, Node, HASH_LENGTH};

#[test]
#[should_panic]
fn mapbuilder_insert_out_of_order() {
    let mut builder = JsMapBuilder::new();
    builder.insert(&Node::KV(vec![1, 2, 3], vec![])).unwrap();
    builder.insert(&Node::KV(vec![1, 2, 2], vec![])).unwrap();
}

#[test]
#[should_panic]
fn mapbuilder_insert_dupe() {
    let mut builder = JsMapBuilder::new();
    builder.insert(&Node::KV(vec![1, 2, 3], vec![])).unwrap();
    builder.insert(&Node::KV(vec![1, 2, 3], vec![])).unwrap();
}

#[test]
fn mapbuilder_insert_including_edge() {
    let mut builder = JsMapBuilder::new();
    builder.insert(&Node::Hash([0; HASH_LENGTH])).unwrap();
    builder.insert(&Node::KV(vec![1, 2, 4], vec![])).unwrap();

    assert!(builder.right_edge());
}

#[test]
fn mapbuilder_insert_abridged_edge() {
    let mut builder = JsMapBuilder::new();
    builder.insert(&Node::KV(vec![1, 2, 3], vec![])).unwrap();
    builder.insert(&Node::Hash([0; HASH_LENGTH])).unwrap();

    assert!(!builder.right_edge());
}

#[test]
fn mapbuilder_build() {
    let mut builder = JsMapBuilder::new();
    builder.insert(&Node::KV(vec![1, 2, 3], vec![1])).unwrap();
    builder.insert(&Node::Hash([0; HASH_LENGTH])).unwrap();
    builder.insert(&Node::KV(vec![1, 2, 4], vec![2])).unwrap();

    let map = builder.build();
    let entries = map.entries();
    assert_eq!(entries.len(), 2);
    assert_eq!(entries[0].key, vec![1, 2, 3]);
    assert_eq!(entries[0].contiguous, true);
    assert_eq!(entries[0].value, vec![1]);
    assert_eq!(entries[1].key, vec![1, 2, 4]);
    assert_eq!(entries[1].contiguous, false);
    assert_eq!(entries[1].value, vec![2]);
    assert!(map.right_edge());
}

#[test]
fn map_get_included() {
    let mut builder = JsMapBuilder::new();
    builder.insert(&Node::KV(vec![1, 2, 3], vec![1])).unwrap();
    builder.insert(&Node::Hash([0; HASH_LENGTH])).unwrap();
    builder.insert(&Node::KV(vec![1, 2, 4], vec![2])).unwrap();

    let map = builder.build();
    assert_eq!(map.get(&[1, 2, 3]).unwrap().unwrap(), vec![1]);
    assert_eq!(map.get(&[1, 2, 4]).unwrap().unwrap(), vec![2]);
}

#[test]
#[should_panic]
fn map_get_missing_absence_proof() {
    let mut builder = JsMapBuilder::new();
    builder.insert(&Node::KV(vec![1, 2, 3], vec![1])).unwrap();
    builder.insert(&Node::Hash([0; HASH_LENGTH])).unwrap();
    builder.insert(&Node::KV(vec![1, 2, 4], vec![2])).unwrap();

    let map = builder.build();
    map.get(&[1, 2, 3, 4]).unwrap();
}

#[test]
fn map_get_valid_absence_proof() {
    let mut builder = JsMapBuilder::new();
    builder.insert(&Node::KV(vec![1, 2, 3], vec![1])).unwrap();
    builder.insert(&Node::KV(vec![1, 2, 4], vec![2])).unwrap();

    let map = builder.build();
    assert!(map.get(&[1, 2, 3, 4]).unwrap().is_none());
}

#[test]
#[should_panic]
fn range_abridged() {
    let mut builder = JsMapBuilder::new();
    builder.insert(&Node::KV(vec![1, 2, 3], vec![1])).unwrap();
    builder.insert(&Node::Hash([0; HASH_LENGTH])).unwrap();
    builder.insert(&Node::KV(vec![1, 2, 4], vec![2])).unwrap();

    let map = builder.build();
    let mut range = map.range(vec![1u8, 2, 3], vec![1u8, 2, 4]);
    assert_eq!(range.next().unwrap().unwrap(), (vec![1, 2, 3], vec![1]));
    range.next().unwrap().unwrap();
}

#[test]
fn range_ok() {
    let mut builder = JsMapBuilder::new();
    builder.insert(&Node::KV(vec![1, 2, 3], vec![1])).unwrap();
    builder.insert(&Node::KV(vec![1, 2, 4], vec![2])).unwrap();
    builder.insert(&Node::KV(vec![1, 2, 5], vec![3])).unwrap();

    let map = builder.build();
    let mut range = map.range(vec![1u8, 2, 3], vec![1u8, 2, 5]);
    assert_eq!(range.next().unwrap().unwrap(), (vec![1, 2, 3], vec![1]));
    assert_eq!(range.next().unwrap().unwrap(), (vec![1, 2, 4], vec![2]));
    assert!(range.next().is_none());
}
