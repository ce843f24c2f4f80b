use merk::{NoopCommit, Tree};

#[test]
fn build_tree() {
    let tree = Tree::new(vec![1], vec![101]);
    assert_eq!(tree.key(), &[1]);
    assert_eq!(tree.value(), &[101]);
    assert!(tree.child(true).is_none());
    assert!(tree.child(false).is_none());

    let tree = tree.attach(true, None);
    assert!(tree.child(true).is_none());
    assert!(tree.child(false).is_none());

    let tree = tree.attach(true, Some(Tree::new(vec![2], vec![102])));
    assert_eq!(tree.key(), &[1]);
    assert_eq!(tree.child(true).unwrap().key(), &[2]);
    assert!(tree.child(false).is_none());

    let tree = Tree::new(vec![3], vec![103]).attach(false, Some(tree));
    assert_eq!(tree.key(), &[3]);
    assert_eq!(tree.child(false).unwrap().key(), &[1]);
    assert!(tree.child(true).is_none());
}

#[test]
fn modify() {
    let tree = Tree::new(vec![0], vec![1])
        .attach(true, Some(Tree::new(vec![2], vec![3])))
        .attach(false, Some(Tree::new(vec![4], vec![5])));

    let tree = tree.walk(true, |left_opt| {
        assert_eq!(left_opt.as_ref().unwrap().key(), &[2]);
        None
    });
    assert!(tree.child(true).is_none());
    assert!(tree.child(false).is_some());

    let tree = tree.walk(true, |left_opt| {
        assert!(left_opt.is_none());
        Some(Tree::new(vec![2], vec![3]))
    });
    assert_eq!(tree.link(true).unwrap().key(), &[2]);

    let tree = tree.walk_expect(false, |right| {
        assert_eq!(right.key(), &[4]);
        None
    });
    assert!(tree.child(true).is_some());
    assert!(tree.child(false).is_none());
}

#[test]
fn child_and_link() {
    let mut tree = Tree::new(vec![0], vec![1]).attach(true, Some(Tree::new(vec![2], vec![3])));
    assert!(tree.link(true).expect("expected link").is_modified());
    assert!(tree.child(true).is_some());
    assert!(tree.link(false).is_none());
    assert!(tree.child(false).is_none());

    tree.commit(&mut NoopCommit {}).expect("commit failed");
    assert!(tree.link(true).expect("expected link").is_stored());
    assert!(tree.child(true).is_some());

    let tree = tree.walk(true, |_| None);
    assert!(tree.link(true).is_none());
    assert!(tree.child(true).is_none());
}

#[test]
fn child_hash() {
    let mut tree = Tree::new(vec![0], vec![1]).attach(true, Some(Tree::new(vec![2], vec![3])));
    tree.commit(&mut NoopCommit {}).expect("commit failed");
    assert_eq!(
        tree.child_hash(true),
        [23, 66, 77, 65, 141, 140, 245, 11, 53, 36, 157, 248, 208, 6, 160, 222, 213, 143, 249, 85]
    );
    assert_eq!(tree.child_hash(false), merk::null_hash());
}

#[test]
fn hash() {
    let tree = Tree::new(vec![0], vec![1]);
    assert_eq!(
        tree.hash(),
        [9, 242, 41, 142, 47, 227, 251, 242, 27, 29, 140, 24, 184, 111, 118, 188, 20, 58, 223, 197]
    );
}

#[test]
fn child_pending_writes() {
    let tree = Tree::new(vec![0], vec![1]);
    assert_eq!(tree.child_pending_writes(true), 0);
    assert_eq!(tree.child_pending_writes(false), 0);

    let tree = tree.attach(true, Some(Tree::new(vec![2], vec![3])));
    assert_eq!(tree.child_pending_writes(true), 1);
    assert_eq!(tree.child_pending_writes(false), 0);
}

#[test]
fn height_and_balance() {
    let tree = Tree::new(vec![0], vec![1]);
    assert_eq!(tree.height(), 1);
    assert_eq!(tree.child_height(true), 0);
    assert_eq!(tree.child_height(false), 0);
    assert_eq!(tree.balance_factor(), 0);

    let tree = tree.attach(true, Some(Tree::new(vec![2], vec![3])));
    assert_eq!(tree.height(), 2);
    assert_eq!(tree.child_height(true), 1);
    assert_eq!(tree.child_height(false), 0);
    assert_eq!(tree.balance_factor(), -1);

    let (tree, maybe_child) = tree.detach(true);
    let tree = tree.attach(false, maybe_child);
    assert_eq!(tree.height(), 2);
    assert_eq!(tree.child_height(true), 0);
    assert_eq!(tree.child_height(false), 1);
    assert_eq!(tree.balance_factor(), 1);
}

#[test]
fn commit() {
    let mut tree = Tree::new(vec![0], vec![1]).attach(false, Some(Tree::new(vec![2], vec![3])));
    tree.commit(&mut NoopCommit {}).expect("commit failed");

    assert!(tree.link(false).expect("expected link").is_stored());
}
