use merk::{
    cmp_bytes, kv_hash, node_hash, null_hash, side_to_str, ByteOrder, Commit, Error, Fetch,
    JsMapBuilder, Link, Node, NoopCommit, Tree, HASH_LENGTH,
};

struct PruneAllSink;

impl Commit for PruneAllSink {
    fn write(&mut self, _tree: &Tree) -> Result<(), Error> {
        Ok(())
    }

    fn prune(&self, _tree: &Tree) -> (bool, bool) {
        (true, true)
    }
}

struct FailingSink;

impl Commit for FailingSink {
    fn write(&mut self, _tree: &Tree) -> Result<(), Error> {
        Err(Error::Store)
    }

    fn prune(&self, _tree: &Tree) -> (bool, bool) {
        (false, false)
    }
}

/// Serves the two leaves used by the round-trip tests, rebuilding each from
/// the same key/value pair that was pruned.
struct LeafSource;

impl Fetch for LeafSource {
    fn fetch(&self, link: &Link) -> Result<Tree, Error> {
        match link.key() {
            [1] => Ok(Tree::new(vec![1], vec![101])),
            [3] => Ok(Tree::new(vec![3], vec![103])),
            _ => Err(Error::Store),
        }
    }
}

/// A source that returns a node whose key does not match the link.
struct WrongKeySource;

impl Fetch for WrongKeySource {
    fn fetch(&self, _link: &Link) -> Result<Tree, Error> {
        Ok(Tree::new(vec![9], vec![99]))
    }
}

fn three_node_tree() -> Tree {
    Tree::new(vec![2], vec![102])
        .attach(true, Some(Tree::new(vec![1], vec![101])))
        .attach(false, Some(Tree::new(vec![3], vec![103])))
}

#[test]
fn heights_after_mutations() {
    let tree = three_node_tree();
    assert_eq!(tree.height(), 2);
    assert_eq!(tree.child_heights(), (1, 1));
    assert_eq!(tree.balance_factor(), 0);

    // Grow the left side: a taller left child lowers the balance factor.
    let tree = tree.walk_expect(true, |left| {
        Some(left.attach(true, Some(Tree::new(vec![0], vec![100]))))
    });
    assert_eq!(tree.height(), 3);
    assert_eq!(tree.child_heights(), (2, 1));
    assert_eq!(tree.balance_factor(), -1);

    // Detach and reattach on the other side: heights follow the links.
    let (tree, left) = tree.detach(true);
    assert_eq!(tree.height(), 2);
    let (tree, right) = tree.detach(false);
    assert_eq!(tree.height(), 1);
    assert!(right.is_some());
    let tree = tree.attach(true, right).attach(false, left);
    assert_eq!(tree.height(), 3);
    assert_eq!(tree.child_heights(), (1, 2));
    assert_eq!(tree.balance_factor(), 1);
}

#[test]
fn hash_is_pure_function_of_inputs() {
    // Identically composed trees hash identically.
    let mut a = three_node_tree();
    let mut b = three_node_tree();
    a.commit(&mut NoopCommit {}).unwrap();
    b.commit(&mut NoopCommit {}).unwrap();
    assert_eq!(a.hash(), b.hash());

    // The hash digests exactly (kv_hash, left child hash, right child hash).
    let composed = node_hash(a.kv_hash(), &a.child_hash(true), &a.child_hash(false));
    assert_eq!(a.hash(), composed);

    // A leaf's hash digests its kv_hash and two null child hashes.
    let leaf = Tree::new(vec![0], vec![1]);
    let expected = node_hash(&kv_hash(&[0], &[1]), &null_hash(), &null_hash());
    assert_eq!(leaf.hash(), expected);
}

#[test]
fn recommit_changes_ancestors_only() {
    let mut before = three_node_tree();
    before.commit(&mut NoopCommit {}).unwrap();
    let root_before = before.hash();
    let left_before = before.child_hash(true);
    let right_before = before.child_hash(false);

    // Replace the left leaf's value and recommit.
    let after = before.walk_expect(true, |_| Some(Tree::new(vec![1], vec![201])));
    let mut after = after;
    after.commit(&mut NoopCommit {}).unwrap();

    // The ancestor path to the root changed...
    assert_ne!(after.child_hash(true), left_before);
    assert_ne!(after.hash(), root_before);
    // ...and the untouched sibling's stored hash did not.
    assert_eq!(after.child_hash(false), right_before);
}

#[test]
fn with_value_leaves_stored_hashes() {
    // Replacing a value leaves the stored kv_hash (and so the node hash)
    // stale until the caller recomputes it.
    let leaf = Tree::new(vec![1], vec![101]);
    let hash_before = leaf.hash();
    let leaf = leaf.with_value(vec![202]);
    assert_eq!(leaf.value(), &[202]);
    assert_eq!(leaf.hash(), hash_before);
}

#[test]
fn commit_round_trip_through_prune_and_load() {
    // A twin committed through a sink that keeps everything in memory gives
    // the reference hash.
    let mut twin = three_node_tree();
    twin.commit(&mut NoopCommit {}).unwrap();
    let reference = twin.hash();

    // Commit through a sink that prunes both sides.
    let mut tree = three_node_tree();
    tree.commit(&mut PruneAllSink).unwrap();
    assert!(tree.link(true).unwrap().is_pruned());
    assert!(tree.link(false).unwrap().is_pruned());
    assert!(tree.child(true).is_none());
    assert_eq!(tree.hash(), reference);

    // Load every hash-only link back from a faithful source.
    tree.load(true, &LeafSource).unwrap();
    tree.load(false, &LeafSource).unwrap();
    assert!(tree.link(true).unwrap().is_stored());
    assert!(tree.link(false).unwrap().is_stored());
    assert_eq!(tree.child(true).unwrap().key(), &[1]);
    assert_eq!(tree.child(true).unwrap().value(), &[101]);
    assert_eq!(tree.hash(), reference);
}

#[test]
fn commit_failure_leaves_tree_dirty() {
    let mut tree = three_node_tree();
    assert_eq!(tree.commit(&mut FailingSink), Err(Error::Store));
    // The failed branch is still dirty and the tree still commits cleanly.
    assert!(tree.link(true).unwrap().is_modified());
    tree.commit(&mut NoopCommit {}).unwrap();

    let mut twin = three_node_tree();
    twin.commit(&mut NoopCommit {}).unwrap();
    assert_eq!(tree.hash(), twin.hash());
}

#[test]
fn load_checks_fetched_key() {
    let mut tree = three_node_tree();
    tree.commit(&mut PruneAllSink).unwrap();
    assert_eq!(tree.load(true, &WrongKeySource), Err(Error::FetchedKeyMismatch));
    // The link is left as it was.
    assert!(tree.link(true).unwrap().is_pruned());
    tree.load(true, &LeafSource).unwrap();
    assert!(tree.link(true).unwrap().is_stored());
}

#[test]
fn child_mut_reaches_materialized_children() {
    let mut tree = three_node_tree();
    assert_eq!(tree.child_mut(true).unwrap().key(), &[1]);
    let mut pruned = three_node_tree();
    pruned.commit(&mut PruneAllSink).unwrap();
    assert!(pruned.child_mut(true).is_none());
}

#[test]
fn builder_rejects_key_order_violations() {
    let mut builder = JsMapBuilder::new();
    builder.insert(&Node::KV(vec![1, 2, 3], vec![1])).unwrap();
    // Decreasing and duplicate keys yield the same ordering error and leave
    // the map unchanged.
    assert_eq!(builder.insert(&Node::KV(vec![1, 2, 2], vec![2])), Err(Error::KeyOrder));
    assert_eq!(builder.insert(&Node::KV(vec![1, 2, 3], vec![2])), Err(Error::KeyOrder));
    let map = builder.build();
    assert_eq!(map.entries().len(), 1);
    assert_eq!(map.entries()[0].value, vec![1]);
}

#[test]
fn builder_kv_hash_node_clears_right_edge() {
    let mut builder = JsMapBuilder::new();
    builder.insert(&Node::KV(vec![1], vec![1])).unwrap();
    builder.insert(&Node::KVHash([7; HASH_LENGTH])).unwrap();
    assert!(!builder.right_edge());
    let map = builder.build();
    assert_eq!(map.entries().len(), 1);
    assert!(!map.right_edge());
}

#[test]
fn get_before_contiguous_first_entry_proves_absence() {
    let mut builder = JsMapBuilder::new();
    builder.insert(&Node::KV(vec![1, 2, 3], vec![1])).unwrap();
    builder.insert(&Node::Hash([0; HASH_LENGTH])).unwrap();
    builder.insert(&Node::KV(vec![1, 2, 4], vec![2])).unwrap();
    let map = builder.build();
    // The first entry is contiguous, so smaller keys are proven absent.
    assert!(map.get(&[1]).unwrap().is_none());
}

#[test]
fn empty_map_answers_from_right_edge() {
    let map = JsMapBuilder::new().build();
    assert!(map.get(&[5]).unwrap().is_none());
    let mut range = map.range(vec![1], vec![9]);
    assert!(range.next().is_none());

    let mut builder = JsMapBuilder::new();
    builder.insert(&Node::Hash([0; HASH_LENGTH])).unwrap();
    let map = builder.build();
    assert_eq!(map.get(&[5]), Err(Error::MissingData));
}

#[test]
fn range_start_match_is_exempt_from_contiguity() {
    let mut builder = JsMapBuilder::new();
    builder.insert(&Node::KV(vec![1, 2, 3], vec![1])).unwrap();
    builder.insert(&Node::Hash([0; HASH_LENGTH])).unwrap();
    builder.insert(&Node::KV(vec![1, 2, 4], vec![2])).unwrap();
    let map = builder.build();
    // The first entry in range is not contiguous, but it is an exact match
    // for the start bound, which the caller vouched for.
    let mut range = map.range(vec![1u8, 2, 4], vec![1u8, 2, 5]);
    assert_eq!(range.next().unwrap().unwrap(), (vec![1, 2, 4], vec![2]));
    assert!(range.next().is_none());
}

#[test]
fn range_yields_nothing_after_its_error() {
    let mut builder = JsMapBuilder::new();
    builder.insert(&Node::KV(vec![1, 2, 3], vec![1])).unwrap();
    builder.insert(&Node::Hash([0; HASH_LENGTH])).unwrap();
    builder.insert(&Node::KV(vec![1, 2, 4], vec![2])).unwrap();
    let map = builder.build();
    let mut range = map.range(vec![1u8, 2, 3], vec![1u8, 2, 5]);
    assert!(range.next().unwrap().is_ok());
    assert_eq!(range.next().unwrap(), Err(Error::MissingData));
    assert!(range.next().is_none());
    assert!(range.next().is_none());
}

#[test]
fn range_uncovered_right_edge_errors_at_end() {
    let mut builder = JsMapBuilder::new();
    builder.insert(&Node::KV(vec![1, 2, 3], vec![1])).unwrap();
    builder.insert(&Node::Hash([0; HASH_LENGTH])).unwrap();
    let map = builder.build();
    let mut range = map.range(vec![1u8, 2, 3], vec![1u8, 2, 9]);
    assert_eq!(range.next().unwrap().unwrap(), (vec![1, 2, 3], vec![1]));
    assert_eq!(range.next().unwrap(), Err(Error::MissingData));
    assert!(range.next().is_none());
}

#[test]
fn byte_order_is_lexicographic() {
    assert_eq!(cmp_bytes(&[1, 2], &[1, 2]), ByteOrder::Equal);
    assert_eq!(cmp_bytes(&[1, 2], &[1, 3]), ByteOrder::Less);
    assert_eq!(cmp_bytes(&[1, 3], &[1, 2]), ByteOrder::Greater);
    assert_eq!(cmp_bytes(&[1, 2], &[1, 2, 0]), ByteOrder::Less);
    assert_eq!(cmp_bytes(&[1, 2, 0], &[1, 2]), ByteOrder::Greater);
    assert_eq!(cmp_bytes(&[], &[]), ByteOrder::Equal);
    assert_eq!(cmp_bytes(&[], &[0]), ByteOrder::Less);
}

#[test]
fn from_fields_keeps_given_hash() {
    let given = [7u8; HASH_LENGTH];
    let tree = Tree::from_fields(vec![1], vec![2], given, None, None);
    assert_eq!(tree.kv_hash(), &given);
    assert_eq!(tree.hash(), node_hash(&given, &null_hash(), &null_hash()));
    assert_eq!(tree.take_key(), vec![1]);
}

#[test]
fn hash_length_prefix_edges() {
    // An empty key and value still digest to a fixed node hash.
    let tree = Tree::new(vec![], vec![]);
    assert_eq!(
        tree.hash(),
        [93, 238, 172, 29, 151, 217, 81, 98, 26, 199, 177, 111, 144, 132, 31, 23, 115, 78, 143,
            103]
    );
    // A value longer than 255 bytes exercises both bytes of the value-length
    // prefix.
    let tree = Tree::new(vec![5], vec![7; 300]);
    assert_eq!(
        tree.hash(),
        [35, 169, 164, 75, 38, 212, 29, 69, 129, 106, 35, 5, 89, 157, 28, 114, 7, 114, 4, 164]
    );
}

#[test]
fn side_names() {
    assert_eq!(side_to_str(true), "left");
    assert_eq!(side_to_str(false), "right");
}
