//! The tree node type and its mutation and persistence protocol.
//!
//! A `Tree` owns one key/value pair plus its hash, and up to two children
//! held through `Link`s. A `Link` is in one of three states: `Pruned` (only
//! the subtree's hash and heights are known), `Stored` (subtree in memory,
//! unchanged since the last commit, hash valid), or `Modified` (subtree in
//! memory with pending changes, hash not yet valid).
//!
//! All mutation takes the node by value and returns it by value, so a subtree
//! is never observed in a half-detached state. `commit` finalizes hashes
//! bottom-up through a `Commit` sink; `load` upgrades a pruned link back to
//! stored through a `Fetch` source.

use vstd::prelude::*;

use crate::bytes::{cmp_bytes, ByteOrder};
use crate::error::Error;
use crate::hash::{kv_hash, kv_hash_of, node_hash, node_hash_of, null_hash, null_hash_seq};

verus! {

/// The larger of two integers.
pub open spec fn int_max(a: int, b: int) -> int {
    if a >= b {
        a
    } else {
        b
    }
}

/// A key/value pair and the hash of that pair.
struct KV {
    key: Vec<u8>,
    value: Vec<u8>,
    hash: crate::hash::Hash,
}

/// The fields of the `Tree` type, stored on the heap.
struct TreeInner {
    kv: KV,
    left: Option<Link>,
    right: Option<Link>,
}

/// A binary AVL tree node, with Merkle hashes.
///
/// The inner fields are stored on the heap so that nodes can recursively link
/// to each other, and so nodes can be detached from their parents and then
/// reattached without copying the subtree.
pub struct Tree {
    inner: Box<TreeInner>,
}

/// The state of a child attachment.
///
/// Every variant carries the pair of child heights of the node it points to,
/// so height and balance can be reported without materializing the subtree.
pub enum Link {
    /// The child subtree is not in memory; only its hash, heights and key are
    /// known from a prior commit.
    Pruned { hash: crate::hash::Hash, child_heights: (u8, u8), key: Vec<u8> },
    /// The child subtree is in memory and has uncommitted changes; its hash
    /// is not yet valid. `pending_writes` counts the uncommitted nodes in the
    /// subtree's modified spine.
    Modified { pending_writes: usize, child_heights: (u8, u8), tree: Tree },
    /// The child subtree is in memory and identical to what was last
    /// committed; its hash is valid.
    Stored { hash: crate::hash::Hash, child_heights: (u8, u8), tree: Tree },
}

/// The recorded child-height pair of a link.
pub open spec fn link_child_heights(l: Link) -> (u8, u8) {
    match l {
        Link::Pruned { child_heights, .. } => child_heights,
        Link::Modified { child_heights, .. } => child_heights,
        Link::Stored { child_heights, .. } => child_heights,
    }
}

/// The height of the subtree a link points to, as recorded in the link.
pub open spec fn link_height(l: Link) -> int {
    1 + int_max(link_child_heights(l).0 as int, link_child_heights(l).1 as int)
}

/// The key of the node a link points to.
pub open spec fn link_key(l: Link) -> Seq<u8> {
    match l {
        Link::Pruned { key, .. } => key@,
        Link::Modified { tree, .. } => tree.spec_key(),
        Link::Stored { tree, .. } => tree.spec_key(),
    }
}

/// The cached hash of a link. Meaningful only for `Pruned` and `Stored`
/// links; a `Modified` link's hash is not yet valid.
pub open spec fn link_hash(l: Link) -> Seq<u8> {
    match l {
        Link::Pruned { hash, .. } => hash@,
        Link::Modified { .. } => Seq::empty(),
        Link::Stored { hash, .. } => hash@,
    }
}

/// The in-memory subtree a link points to, if any.
pub open spec fn link_tree(l: Link) -> Option<Tree> {
    match l {
        Link::Pruned { .. } => None,
        Link::Modified { tree, .. } => Some(tree),
        Link::Stored { tree, .. } => Some(tree),
    }
}

/// The pending-write count of a link: meaningful only for `Modified` links,
/// zero for the other two variants.
pub open spec fn link_pending_writes(l: Link) -> int {
    match l {
        Link::Modified { pending_writes, .. } => pending_writes as int,
        _ => 0,
    }
}

/// The Merkle hash of the subtree behind a link: the recorded hash for a
/// pruned link, the recursively recomputed hash for a materialized one.
pub open spec fn link_merkle(l: Link) -> Seq<u8>
    decreases l,
{
    match l {
        Link::Pruned { hash, .. } => hash@,
        Link::Modified { tree, .. } => tree.spec_merkle(),
        Link::Stored { tree, .. } => tree.spec_merkle(),
    }
}

/// The Merkle hash contribution of a child slot: the all-zero sentinel when
/// the slot is empty.
pub open spec fn opt_link_merkle(l: Option<Link>) -> Seq<u8>
    decreases l,
{
    match l {
        None => null_hash_seq(),
        Some(link) => link_merkle(link),
    }
}

/// Structural well-formedness of a link: a materialized link records exactly
/// the child heights and pending-write count of its subtree.
pub open spec fn link_wf(l: Link) -> bool
    decreases l,
{
    match l {
        Link::Pruned { .. } => true,
        Link::Modified { pending_writes, child_heights, tree } => {
            &&& tree.spec_wf()
            &&& child_heights.0 as int == tree.spec_child_height(true)
            &&& child_heights.1 as int == tree.spec_child_height(false)
            &&& pending_writes as int == 1 + tree.spec_pending()
        },
        Link::Stored { child_heights, tree, .. } => {
            &&& tree.spec_wf()
            &&& child_heights.0 as int == tree.spec_child_height(true)
            &&& child_heights.1 as int == tree.spec_child_height(false)
        },
    }
}

/// Structural well-formedness of a child slot.
pub open spec fn opt_link_wf(l: Option<Link>) -> bool
    decreases l,
{
    match l {
        None => true,
        Some(link) => link_wf(link),
    }
}

/// A fully committed link: not modified, and a stored link's cached hash is
/// the Merkle hash of its subtree, recursively.
pub open spec fn link_committed(l: Link) -> bool
    decreases l,
{
    match l {
        Link::Pruned { .. } => true,
        Link::Modified { .. } => false,
        Link::Stored { hash, tree, .. } => hash@ == tree.spec_merkle() && tree.spec_committed(),
    }
}

/// A fully committed child slot.
pub open spec fn opt_link_committed(l: Option<Link>) -> bool
    decreases l,
{
    match l {
        None => true,
        Some(link) => link_committed(link),
    }
}

/// A clean link: its cached hashes are trustworthy. A modified link is clean
/// when its subtree is; a stored link must be fully committed.
pub open spec fn link_clean(l: Link) -> bool
    decreases l,
{
    match l {
        Link::Pruned { .. } => true,
        Link::Modified { tree, .. } => tree.spec_clean(),
        Link::Stored { hash, tree, .. } => hash@ == tree.spec_merkle() && tree.spec_committed(),
    }
}

/// A clean child slot.
pub open spec fn opt_link_clean(l: Option<Link>) -> bool
    decreases l,
{
    match l {
        None => true,
        Some(link) => link_clean(link),
    }
}

/// The `Modified` link that `attach` builds around a child.
pub open spec fn modified_link_for(c: Tree) -> Link {
    Link::Modified {
        pending_writes: (1 + c.spec_pending()) as usize,
        child_heights: ((c.spec_child_height(true) as u8), (c.spec_child_height(false) as u8)),
        tree: c,
    }
}

/// The child slot that `attach` leaves behind.
pub open spec fn attached_link(c: Option<Tree>) -> Option<Link> {
    match c {
        None => None,
        Some(child) => Some(modified_link_for(child)),
    }
}

/// What `attach` asks of a child about to be installed under a parent with
/// the given key.
pub open spec fn attach_child_ok(parent_key: Seq<u8>, c: Option<Tree>) -> bool {
    match c {
        None => true,
        Some(child) => {
            &&& child.spec_wf()
            &&& child.spec_key() != parent_key
            &&& child.spec_height() <= 254
            &&& 1 + child.spec_pending() <= usize::MAX
        },
    }
}

impl Link {
    /// Returns true if the link is of variant `Pruned`.
    pub fn is_pruned(&self) -> (r: bool)
        ensures
            r == (self is Pruned),
    {
        matches!(self, Link::Pruned { .. })
    }

    /// Returns true if the link is of variant `Modified`.
    pub fn is_modified(&self) -> (r: bool)
        ensures
            r == (self is Modified),
    {
        matches!(self, Link::Modified { .. })
    }

    /// Returns true if the link is of variant `Stored`.
    pub fn is_stored(&self) -> (r: bool)
        ensures
            r == (self is Stored),
    {
        matches!(self, Link::Stored { .. })
    }

    /// Returns the key of the node this link points to.
    pub fn key(&self) -> (r: &[u8])
        ensures
            r@ == link_key(*self),
    {
        match self {
            Link::Pruned { key, .. } => key.as_slice(),
            Link::Modified { tree, .. } => tree.key(),
            Link::Stored { tree, .. } => tree.key(),
        }
    }

    /// Returns the in-memory subtree this link points to, if any.
    pub fn tree(&self) -> (r: Option<&Tree>)
        ensures
            match r {
                None => link_tree(*self) is None,
                Some(t) => link_tree(*self) == Some(*t),
            },
    {
        match self {
            Link::Pruned { .. } => None,
            Link::Modified { tree, .. } => Some(tree),
            Link::Stored { tree, .. } => Some(tree),
        }
    }

    /// Returns the cached hash of the link. A modified link's hash is not
    /// yet valid, so the link must not be modified.
    pub fn hash(&self) -> (r: &crate::hash::Hash)
        requires
            !(self is Modified),
        ensures
            r@ == link_hash(*self),
    {
        match self {
            Link::Pruned { hash, .. } => hash,
            Link::Stored { hash, .. } => hash,
            Link::Modified { .. } => unreached(),
        }
    }

    /// Returns the height of the subtree this link points to, from the
    /// recorded child heights.
    pub fn height(&self) -> (r: u8)
        requires
            link_height(*self) <= 255,
        ensures
            r as int == link_height(*self),
    {
        let (a, b) = match self {
            Link::Pruned { child_heights, .. } => (child_heights.0, child_heights.1),
            Link::Modified { child_heights, .. } => (child_heights.0, child_heights.1),
            Link::Stored { child_heights, .. } => (child_heights.0, child_heights.1),
        };
        if a >= b {
            1 + a
        } else {
            1 + b
        }
    }

    /// Wraps a subtree with pending changes in a `Modified` link.
    pub fn from_modified_tree(tree: Tree) -> (r: Link)
        requires
            tree.spec_wf(),
            1 + tree.spec_pending() <= usize::MAX,
        ensures
            r == modified_link_for(tree),
    {
        let pending_writes = 1 + tree.child_pending_writes(true) + tree.child_pending_writes(
            false,
        );
        let child_heights = tree.child_heights();
        Link::Modified { pending_writes, child_heights, tree }
    }

    /// Degrades a committed link to `Pruned`, releasing the in-memory
    /// subtree and retaining only its hash, heights and key.
    pub fn into_pruned(self) -> (r: Link)
        requires
            !(self is Modified),
        ensures
            r is Pruned,
            link_hash(r) == link_hash(self),
            link_child_heights(r) == link_child_heights(self),
            link_key(r) == link_key(self),
            link_committed(self) ==> link_merkle(r) == link_merkle(self),
            link_wf(r),
            link_committed(r),
    {
        match self {
            Link::Pruned { hash, child_heights, key } => Link::Pruned { hash, child_heights, key },
            Link::Stored { hash, child_heights, tree } => Link::Pruned {
                hash,
                child_heights,
                key: tree.take_key(),
            },
            Link::Modified { .. } => unreached(),
        }
    }
}

impl Tree {
    /// The key of the root node.
    pub closed spec fn spec_key(self) -> Seq<u8> {
        self.inner.kv.key@
    }

    /// The value of the root node.
    pub closed spec fn spec_value(self) -> Seq<u8> {
        self.inner.kv.value@
    }

    /// The stored hash of the root node's key/value pair.
    pub closed spec fn spec_kv_hash(self) -> Seq<u8> {
        self.inner.kv.hash@
    }

    /// The child slot on the given side.
    pub closed spec fn spec_link(self, left: bool) -> Option<Link> {
        if left {
            self.inner.left
        } else {
            self.inner.right
        }
    }

    /// The height of the child on the given side, from the link's recorded
    /// child heights; zero when the slot is empty.
    pub open spec fn spec_child_height(self, left: bool) -> int {
        match self.spec_link(left) {
            None => 0,
            Some(l) => link_height(l),
        }
    }

    /// The height of the tree: one more than its taller child.
    pub open spec fn spec_height(self) -> int {
        1 + int_max(self.spec_child_height(true), self.spec_child_height(false))
    }

    /// The balance factor: right child height minus left child height.
    pub open spec fn spec_balance_factor(self) -> int {
        self.spec_child_height(false) - self.spec_child_height(true)
    }

    /// The pending-write count recorded for the child on the given side.
    pub open spec fn spec_child_pending_writes(self, left: bool) -> int {
        match self.spec_link(left) {
            None => 0,
            Some(l) => link_pending_writes(l),
        }
    }

    /// The pending-write count of both child slots together.
    pub open spec fn spec_pending(self) -> int {
        self.spec_child_pending_writes(true) + self.spec_child_pending_writes(false)
    }

    /// The Merkle hash of the tree: the digest of its stored `kv_hash` and
    /// the Merkle hashes of its two children.
    pub closed spec fn spec_merkle(self) -> Seq<u8>
        decreases self,
    {
        node_hash_of(
            self.inner.kv.hash@,
            opt_link_merkle(self.inner.left),
            opt_link_merkle(self.inner.right),
        )
    }

    /// The cached hash of the child on the given side: the link's stored
    /// hash, or the all-zero sentinel when the slot is empty.
    pub open spec fn spec_child_hash(self, left: bool) -> Seq<u8> {
        match self.spec_link(left) {
            None => null_hash_seq(),
            Some(l) => link_hash(l),
        }
    }

    /// Structural well-formedness: every link's recorded heights and
    /// pending-write counts match its subtree, and the height fits the
    /// engine's one-byte height fields.
    pub closed spec fn spec_wf(self) -> bool
        decreases self,
    {
        &&& self.spec_height() <= 255
        &&& opt_link_wf(self.inner.left)
        &&& opt_link_wf(self.inner.right)
    }

    /// Every link is committed: no pending changes anywhere, and every
    /// stored link's cached hash is the Merkle hash of its subtree.
    pub closed spec fn spec_committed(self) -> bool
        decreases self,
    {
        opt_link_committed(self.inner.left) && opt_link_committed(self.inner.right)
    }

    /// Every cached hash in the tree is trustworthy: stored links are fully
    /// committed, while modified links may still carry pending changes.
    pub closed spec fn spec_clean(self) -> bool
        decreases self,
    {
        opt_link_clean(self.inner.left) && opt_link_clean(self.inner.right)
    }

    /// The child that `detach` on the given side would hand back: the
    /// subtree for a materialized link, nothing for an empty slot or a
    /// pruned link.
    pub open spec fn spec_detached_child(self, left: bool) -> Option<Tree> {
        match self.spec_link(left) {
            None => None,
            Some(l) => link_tree(l),
        }
    }

    /// The number of materialized nodes, as a recursion measure.
    pub closed spec fn spec_size(self) -> nat
        decreases self,
    {
        1 + opt_link_size(self.inner.left) + opt_link_size(self.inner.right)
    }

    /// Creates a new `Tree` with the given key and value, and no children.
    ///
    /// Hashes the key/value pair to initialize the `kv_hash` field, so the
    /// key must fit its one-byte length prefix and the value its two-byte
    /// length prefix.
    pub fn new(key: Vec<u8>, value: Vec<u8>) -> (r: Tree)
        requires
            key@.len() < 256,
            value@.len() < 65536,
        ensures
            r.spec_key() == key@,
            r.spec_value() == value@,
            r.spec_kv_hash() == kv_hash_of(key@, value@),
            r.spec_link(true) is None,
            r.spec_link(false) is None,
            r.spec_wf(),
            r.spec_clean(),
            r.spec_committed(),
            r.spec_height() == 1,
            r.spec_pending() == 0,
            r.spec_merkle() == node_hash_of(
                kv_hash_of(key@, value@),
                null_hash_seq(),
                null_hash_seq(),
            ),
    {
        let hash = kv_hash(key.as_slice(), value.as_slice());
        Tree { inner: Box::new(TreeInner { kv: KV { key, value, hash }, left: None, right: None }) }
    }

    /// Creates a `Tree` by supplying all the raw struct fields (mainly
    /// useful for testing). The `kv_hash` and the links' cached hashes are
    /// not ensured to be correct.
    pub fn from_fields(
        key: Vec<u8>,
        value: Vec<u8>,
        hash: crate::hash::Hash,
        left: Option<Link>,
        right: Option<Link>,
    ) -> (r: Tree)
        requires
            opt_link_wf(left),
            opt_link_wf(right),
            (left matches Some(l) ==> link_height(l) <= 254),
            (right matches Some(l) ==> link_height(l) <= 254),
        ensures
            r.spec_key() == key@,
            r.spec_value() == value@,
            r.spec_kv_hash() == hash@,
            r.spec_link(true) == left,
            r.spec_link(false) == right,
            r.spec_wf(),
            r.spec_clean() == (opt_link_clean(left) && opt_link_clean(right)),
            r.spec_committed() == (opt_link_committed(left) && opt_link_committed(right)),
    {
        Tree { inner: Box::new(TreeInner { kv: KV { key, value, hash }, left, right }) }
    }

    /// Returns the root node's key as a slice.
    pub fn key(&self) -> (r: &[u8])
        ensures
            r@ == self.spec_key(),
    {
        self.inner.kv.key.as_slice()
    }

    /// Consumes the tree and returns its root node's key, without cloning.
    pub fn take_key(self) -> (r: Vec<u8>)
        ensures
            r@ == self.spec_key(),
    {
        let Tree { inner } = self;
        let TreeInner { kv, .. } = *inner;
        kv.key
    }

    /// Returns the root node's value as a slice.
    pub fn value(&self) -> (r: &[u8])
        ensures
            r@ == self.spec_value(),
    {
        self.inner.kv.value.as_slice()
    }

    /// Returns the hash of the root node's key/value pair.
    pub fn kv_hash(&self) -> (r: &crate::hash::Hash)
        ensures
            r@ == self.spec_kv_hash(),
    {
        &self.inner.kv.hash
    }

    /// Returns a reference to the root node's `Link` on the given side, if
    /// any.
    pub fn link(&self, left: bool) -> (r: Option<&Link>)
        ensures
            match r {
                None => self.spec_link(left) is None,
                Some(l) => self.spec_link(left) == Some(*l),
            },
    {
        if left {
            self.inner.left.as_ref()
        } else {
            self.inner.right.as_ref()
        }
    }

    /// Returns a reference to the root node's child on the given side, if it
    /// is in memory.
    pub fn child(&self, left: bool) -> (r: Option<&Tree>)
        ensures
            match r {
                None => self.spec_detached_child(left) is None,
                Some(t) => self.spec_detached_child(left) == Some(*t),
            },
    {
        match self.link(left) {
            None => None,
            Some(link) => link.tree(),
        }
    }

    /// Returns a mutable reference to the root node's child on the given
    /// side, if it is in memory.
    ///
    /// The link's recorded heights, pending-write count and cached hash are
    /// left as they were: a caller that changes the subtree's shape or
    /// contents through the reference is responsible for restoring the
    /// tree's invariants, as with a detach and reattach.
    pub fn child_mut(&mut self, left: bool) -> (r: Option<&mut Tree>)
        ensures
            (r is None ==> *final(self) == *old(self) && old(self).spec_detached_child(left)
                is None),
            (r matches Some(t) ==> {
                &&& old(self).spec_detached_child(left) == Some(*t)
                &&& final(self).spec_key() == old(self).spec_key()
                &&& final(self).spec_value() == old(self).spec_value()
                &&& final(self).spec_kv_hash() == old(self).spec_kv_hash()
                &&& final(self).spec_link(!left) == old(self).spec_link(!left)
                &&& (final(self).spec_link(left) matches Some(nl) && link_tree(nl) == Some(
                    *final(t),
                ) && link_child_heights(nl) == link_child_heights(
                    old(self).spec_link(left)->Some_0,
                ) && link_pending_writes(nl) == link_pending_writes(
                    old(self).spec_link(left)->Some_0,
                ) && link_hash(nl) == link_hash(old(self).spec_link(left)->Some_0) && (nl
                    is Modified <==> old(self).spec_link(left)->Some_0 is Modified))
            }),
    {
        let slot = if left {
            &mut self.inner.left
        } else {
            &mut self.inner.right
        };
        match slot {
            None => None,
            Some(Link::Pruned { .. }) => None,
            Some(Link::Modified { tree, .. }) => Some(tree),
            Some(Link::Stored { tree, .. }) => Some(tree),
        }
    }

    /// Returns the hash of the root node's child on the given side, or the
    /// all-zero sentinel if there is no child. The link must not be
    /// modified, as a modified link's hash is not yet valid.
    pub fn child_hash(&self, left: bool) -> (r: crate::hash::Hash)
        requires
            (self.spec_link(left) matches Some(l) ==> !(l is Modified)),
        ensures
            r@ == self.spec_child_hash(left),
    {
        match self.link(left) {
            None => null_hash(),
            Some(link) => *link.hash(),
        }
    }

    /// Computes and returns the hash of the root node, from its stored
    /// `kv_hash` and its links' cached hashes. On a clean tree this is the
    /// tree's Merkle hash.
    pub fn hash(&self) -> (r: crate::hash::Hash)
        requires
            (self.spec_link(true) matches Some(l) ==> !(l is Modified)),
            (self.spec_link(false) matches Some(l) ==> !(l is Modified)),
        ensures
            r@ == node_hash_of(
                self.spec_kv_hash(),
                self.spec_child_hash(true),
                self.spec_child_hash(false),
            ),
            self.spec_clean() ==> r@ == self.spec_merkle(),
    {
        let left = self.child_hash(true);
        let right = self.child_hash(false);
        proof {
            if self.spec_clean() {
                assert(self.spec_child_hash(true) == opt_link_merkle(self.inner.left));
                assert(self.spec_child_hash(false) == opt_link_merkle(self.inner.right));
            }
        }
        node_hash(&self.inner.kv.hash, &left, &right)
    }

    /// Returns the number of pending writes recorded for the child on the
    /// given side: zero unless the link is modified.
    pub fn child_pending_writes(&self, left: bool) -> (r: usize)
        ensures
            r as int == self.spec_child_pending_writes(left),
    {
        match self.link(left) {
            Some(Link::Modified { pending_writes, .. }) => *pending_writes,
            _ => 0,
        }
    }

    /// Returns the height of the child on the given side, or zero if there
    /// is no child.
    pub fn child_height(&self, left: bool) -> (r: u8)
        requires
            self.spec_wf(),
        ensures
            r as int == self.spec_child_height(left),
    {
        match self.link(left) {
            None => 0,
            Some(link) => link.height(),
        }
    }

    /// Returns the heights of both children, left first.
    pub fn child_heights(&self) -> (r: (u8, u8))
        requires
            self.spec_wf(),
        ensures
            r.0 as int == self.spec_child_height(true),
            r.1 as int == self.spec_child_height(false),
    {
        (self.child_height(true), self.child_height(false))
    }

    /// Returns the height of the tree: a single node has height 1, a node
    /// with one child has height 2, and so on.
    pub fn height(&self) -> (r: u8)
        requires
            self.spec_wf(),
        ensures
            r as int == self.spec_height(),
    {
        let left = self.child_height(true);
        let right = self.child_height(false);
        if left >= right {
            1 + left
        } else {
            1 + right
        }
    }

    /// Returns the balance factor of the root node: the height of the right
    /// child minus the height of the left child.
    pub fn balance_factor(&self) -> (r: i8)
        requires
            self.spec_wf(),
            self.spec_child_height(true) <= 127,
            self.spec_child_height(false) <= 127,
        ensures
            r as int == self.spec_balance_factor(),
    {
        let left = self.child_height(true) as i8;
        let right = self.child_height(false) as i8;
        right - left
    }

    /// Attaches the child (if any) to the root node on the given side, as a
    /// `Modified` link.
    ///
    /// The slot must be empty, and the child's key must differ from the
    /// parent's: attaching over an occupied slot or attaching a same-keyed
    /// child is a contract violation, excluded statically.
    pub fn attach(self, left: bool, maybe_child: Option<Tree>) -> (r: Tree)
        requires
            self.spec_wf(),
            self.spec_link(left) is None,
            attach_child_ok(self.spec_key(), maybe_child),
        ensures
            r.spec_wf(),
            r.spec_key() == self.spec_key(),
            r.spec_value() == self.spec_value(),
            r.spec_kv_hash() == self.spec_kv_hash(),
            r.spec_link(!left) == self.spec_link(!left),
            r.spec_link(left) == attached_link(maybe_child),
            r.spec_clean() == (self.spec_clean() && (maybe_child matches Some(c)
                ==> c.spec_clean())),
            r.spec_pending() == self.spec_pending() + (match maybe_child {
                None => 0int,
                Some(c) => 1 + c.spec_pending(),
            }),
            r.spec_height() == (match maybe_child {
                None => self.spec_height(),
                Some(c) => int_max(self.spec_height(), 1 + c.spec_height()),
            }),
    {
        let mut this = self;
        match maybe_child {
            None => this,
            Some(child) => {
                let link = Link::from_modified_tree(child);
                if left {
                    this.inner.left = Some(link);
                } else {
                    this.inner.right = Some(link);
                }
                this
            },
        }
    }

    /// Detaches the child on the given side (if any) from the root node, and
    /// returns `(root_node, maybe_child)`.
    ///
    /// A pruned link detaches as `None`: hash-only children are not
    /// implicitly fetched, and the slot is emptied either way.
    pub fn detach(self, left: bool) -> (r: (Tree, Option<Tree>))
        requires
            self.spec_wf(),
        ensures
            r.0.spec_wf(),
            r.0.spec_key() == self.spec_key(),
            r.0.spec_value() == self.spec_value(),
            r.0.spec_kv_hash() == self.spec_kv_hash(),
            r.0.spec_link(!left) == self.spec_link(!left),
            r.0.spec_link(left) is None,
            r.1 == self.spec_detached_child(left),
            (r.1 matches Some(c) ==> c.spec_wf() && c.spec_height() <= 254),
            self.spec_clean() ==> r.0.spec_clean() && (r.1 matches Some(c) ==> c.spec_clean()),
    {
        proof {
            if self.spec_clean() {
                match self.spec_link(left) {
                    Some(Link::Stored { tree, .. }) => {
                        lemma_committed_implies_clean(tree);
                    },
                    _ => {},
                }
            }
        }
        let mut this = self;
        let taken = if left {
            this.inner.left.take()
        } else {
            this.inner.right.take()
        };
        let maybe_child = match taken {
            None => None,
            Some(Link::Pruned { .. }) => None,
            Some(Link::Modified { tree, .. }) => Some(tree),
            Some(Link::Stored { tree, .. }) => Some(tree),
        };
        (this, maybe_child)
    }

    /// Detaches the child on the given side from the root node, and returns
    /// `(root_node, child)`.
    ///
    /// The side must hold a materialized child: expecting a child where none
    /// is present is a contract violation, excluded statically.
    pub fn detach_expect(self, left: bool) -> (r: (Tree, Tree))
        requires
            self.spec_wf(),
            self.spec_detached_child(left) is Some,
        ensures
            r.0.spec_wf(),
            r.0.spec_key() == self.spec_key(),
            r.0.spec_value() == self.spec_value(),
            r.0.spec_kv_hash() == self.spec_kv_hash(),
            r.0.spec_link(!left) == self.spec_link(!left),
            r.0.spec_link(left) is None,
            Some(r.1) == self.spec_detached_child(left),
            r.1.spec_wf(),
            r.1.spec_height() <= 254,
            self.spec_clean() ==> r.0.spec_clean() && r.1.spec_clean(),
    {
        let (parent, maybe_child) = self.detach(left);
        match maybe_child {
            Some(child) => (parent, child),
            None => unreached(),
        }
    }

    /// Detaches the child on the given side and passes it into `f`, which
    /// must return a new child (the same child, a replacement, or `None` to
    /// leave the slot empty); the returned child is reattached on the same
    /// side.
    ///
    /// This is the only sanctioned way to transform a subtree in place: the
    /// node is never observed in a half-detached state.
    pub fn walk<F: FnOnce(Option<Tree>) -> Option<Tree>>(self, left: bool, f: F) -> (r: Tree)
        requires
            self.spec_wf(),
            call_requires(f, (self.spec_detached_child(left),)),
            forall|fr: Option<Tree>|
                call_ensures(f, (self.spec_detached_child(left),), fr) ==> attach_child_ok(
                    self.spec_key(),
                    fr,
                ),
        ensures
            r.spec_wf(),
            r.spec_key() == self.spec_key(),
            r.spec_value() == self.spec_value(),
            r.spec_kv_hash() == self.spec_kv_hash(),
            r.spec_link(!left) == self.spec_link(!left),
            exists|fr: Option<Tree>|
                #[trigger] call_ensures(f, (self.spec_detached_child(left),), fr)
                    && r.spec_link(left) == attached_link(fr),
    {
        let (tree, maybe_child) = self.detach(left);
        tree.attach(left, f(maybe_child))
    }

    /// Like `walk`, but the side must hold a materialized child.
    pub fn walk_expect<F: FnOnce(Tree) -> Option<Tree>>(self, left: bool, f: F) -> (r: Tree)
        requires
            self.spec_wf(),
            self.spec_detached_child(left) is Some,
            call_requires(f, (self.spec_detached_child(left)->Some_0,)),
            forall|fr: Option<Tree>|
                call_ensures(f, (self.spec_detached_child(left)->Some_0,), fr) ==> attach_child_ok(
                    self.spec_key(),
                    fr,
                ),
        ensures
            r.spec_wf(),
            r.spec_key() == self.spec_key(),
            r.spec_value() == self.spec_value(),
            r.spec_kv_hash() == self.spec_kv_hash(),
            r.spec_link(!left) == self.spec_link(!left),
            exists|fr: Option<Tree>|
                #[trigger] call_ensures(f, (self.spec_detached_child(left)->Some_0,), fr)
                    && r.spec_link(left) == attached_link(fr),
    {
        let (tree, child) = self.detach_expect(left);
        tree.attach(left, f(child))
    }

    /// Replaces the root node's value and returns the modified tree.
    ///
    /// The stored `kv_hash` is left as it was and is stale until the caller
    /// recomputes it; the tree's Merkle hash, which digests the stored
    /// `kv_hash`, is unchanged.
    pub fn with_value(self, value: Vec<u8>) -> (r: Tree)
        ensures
            r.spec_key() == self.spec_key(),
            r.spec_value() == value@,
            r.spec_kv_hash() == self.spec_kv_hash(),
            r.spec_link(true) == self.spec_link(true),
            r.spec_link(false) == self.spec_link(false),
            r.spec_merkle() == self.spec_merkle(),
            self.spec_wf() ==> r.spec_wf(),
            self.spec_clean() ==> r.spec_clean(),
            self.spec_committed() ==> r.spec_committed(),
    {
        let mut this = self;
        this.inner.kv.value = value;
        this
    }

    /// Finalizes modifications to the tree bottom-up: recursively commits
    /// every modified link, replacing it with a `Stored` link carrying the
    /// subtree's freshly computed hash, writes this node to the sink, and
    /// prunes whichever children the sink asks to evict.
    ///
    /// Fails only when the sink fails, propagating its error; children
    /// already committed are not rolled back, but every link is left in a
    /// consistent, still-dirty-at-worst state, and the tree's Merkle hash is
    /// unchanged either way.
    pub fn commit<C: Commit>(&mut self, c: &mut C) -> (r: Result<(), Error>)
        requires
            old(self).spec_wf(),
            old(self).spec_clean(),
        ensures
            final(self).spec_wf(),
            final(self).spec_clean(),
            final(self).spec_merkle() == old(self).spec_merkle(),
            final(self).spec_key() == old(self).spec_key(),
            final(self).spec_value() == old(self).spec_value(),
            final(self).spec_kv_hash() == old(self).spec_kv_hash(),
            final(self).spec_child_height(true) == old(self).spec_child_height(true),
            final(self).spec_child_height(false) == old(self).spec_child_height(false),
            final(self).spec_height() == old(self).spec_height(),
            final(self).spec_child_pending_writes(true) <= old(self).spec_child_pending_writes(
                true,
            ),
            final(self).spec_child_pending_writes(false) <= old(self).spec_child_pending_writes(
                false,
            ),
            final(self).spec_pending() <= old(self).spec_pending(),
            r is Ok ==> final(self).spec_committed(),
            (r is Ok ==> (old(self).spec_link(true) matches Some(l) ==> (final(self).spec_link(
                true,
            ) matches Some(nl) && link_hash(nl) == link_merkle(l)))),
            (r is Ok ==> (old(self).spec_link(false) matches Some(l) ==> (final(self).spec_link(
                false,
            ) matches Some(nl) && link_hash(nl) == link_merkle(l)))),
        decreases old(self).spec_size(),
    {
        let taken = self.inner.left.take();
        match taken {
            Some(Link::Modified { mut tree, child_heights, .. }) => {
                let res = tree.commit(c);
                match res {
                    Ok(()) => {
                        let hash = tree.hash();
                        self.inner.left = Some(Link::Stored { hash, tree, child_heights });
                    },
                    Err(e) => {
                        let pw = 1 + tree.child_pending_writes(true) + tree.child_pending_writes(
                            false,
                        );
                        self.inner.left = Some(
                            Link::Modified { pending_writes: pw, child_heights, tree },
                        );
                        return Err(e);
                    },
                }
            },
            other => {
                self.inner.left = other;
            },
        }
        let taken = self.inner.right.take();
        match taken {
            Some(Link::Modified { mut tree, child_heights, .. }) => {
                let res = tree.commit(c);
                match res {
                    Ok(()) => {
                        let hash = tree.hash();
                        self.inner.right = Some(Link::Stored { hash, tree, child_heights });
                    },
                    Err(e) => {
                        let pw = 1 + tree.child_pending_writes(true) + tree.child_pending_writes(
                            false,
                        );
                        self.inner.right = Some(
                            Link::Modified { pending_writes: pw, child_heights, tree },
                        );
                        return Err(e);
                    },
                }
            },
            other => {
                self.inner.right = other;
            },
        }
        let res = c.write(&*self);
        match res {
            Ok(()) => {},
            Err(e) => {
                return Err(e);
            },
        }
        let (prune_left, prune_right) = c.prune(&*self);
        if prune_left {
            let taken = self.inner.left.take();
            self.inner.left = match taken {
                None => None,
                Some(link) => Some(link.into_pruned()),
            };
        }
        if prune_right {
            let taken = self.inner.right.take();
            self.inner.right = match taken {
                None => None,
                Some(link) => Some(link.into_pruned()),
            };
        }
        Ok(())
    }

    /// Fetches the child on the given side from the source and installs it,
    /// upgrading the link from `Pruned` to `Stored` with the link's
    /// previously known hash and heights.
    ///
    /// The fetched node's key is checked against the key recorded in the
    /// link, guarding against a misbehaving source; on any failure the tree
    /// is left unchanged.
    pub fn load<S: Fetch>(&mut self, left: bool, source: &S) -> (r: Result<(), Error>)
        requires
            old(self).spec_wf(),
            (old(self).spec_link(left) matches Some(l) && l is Pruned),
        ensures
            final(self).spec_wf(),
            final(self).spec_key() == old(self).spec_key(),
            final(self).spec_value() == old(self).spec_value(),
            final(self).spec_kv_hash() == old(self).spec_kv_hash(),
            final(self).spec_link(!left) == old(self).spec_link(!left),
            final(self).spec_merkle() == old(self).spec_merkle(),
            final(self).spec_height() == old(self).spec_height(),
            old(self).spec_clean() ==> final(self).spec_clean(),
            r is Ok ==> (final(self).spec_link(left) matches Some(nl) && nl is Stored
                && link_hash(nl) == link_hash(old(self).spec_link(left)->Some_0) && link_key(nl)
                == link_key(old(self).spec_link(left)->Some_0) && link_committed(nl)),
            r is Err ==> final(self).spec_link(left) == old(self).spec_link(left),
    {
        let fetched = {
            let link = if left {
                self.inner.left.as_ref()
            } else {
                self.inner.right.as_ref()
            };
            match link {
                Some(l) => source.fetch(l),
                None => unreached(),
            }
        };
        let tree = match fetched {
            Ok(t) => t,
            Err(e) => {
                return Err(e);
            },
        };
        let (key_matches, hash, child_heights) = {
            let link = if left {
                self.inner.left.as_ref()
            } else {
                self.inner.right.as_ref()
            };
            match link {
                Some(Link::Pruned { hash, child_heights, key }) => {
                    let cmp = cmp_bytes(tree.key(), key.as_slice());
                    (matches!(cmp, ByteOrder::Equal), *hash, *child_heights)
                },
                _ => unreached(),
            }
        };
        if !key_matches {
            return Err(Error::FetchedKeyMismatch);
        }
        let new_link = Some(Link::Stored { hash, child_heights, tree });
        if left {
            self.inner.left = new_link;
        } else {
            self.inner.right = new_link;
        }
        Ok(())
    }
}

/// The number of materialized nodes behind a child slot.
pub open spec fn opt_link_size(l: Option<Link>) -> nat
    decreases l,
{
    match l {
        None => 0,
        Some(link) => link_size(link),
    }
}

/// The number of materialized nodes behind a link.
pub open spec fn link_size(l: Link) -> nat
    decreases l,
{
    match l {
        Link::Pruned { .. } => 0,
        Link::Modified { tree, .. } => 1 + tree.spec_size(),
        Link::Stored { tree, .. } => 1 + tree.spec_size(),
    }
}

/// A committed tree is clean: all of its cached hashes are trustworthy.
pub proof fn lemma_committed_implies_clean(t: Tree)
    requires
        t.spec_committed(),
    ensures
        t.spec_clean(),
    decreases t,
{
    match t.spec_link(true) {
        Some(Link::Modified { tree, .. }) => {},
        _ => {},
    }
}

/// The tree's hash is a pure function of its stored `kv_hash` and the Merkle
/// hashes of its two children: this is how it is defined.
pub proof fn lemma_merkle_composition(t: Tree)
    ensures
        t.spec_merkle() == node_hash_of(
            t.spec_kv_hash(),
            opt_link_merkle(t.spec_link(true)),
            opt_link_merkle(t.spec_link(false)),
        ),
{
}

/// Two trees whose stored `kv_hash` and child Merkle hashes agree have the
/// same hash, whatever else differs between them.
pub proof fn lemma_hash_pure(a: Tree, b: Tree)
    requires
        a.spec_kv_hash() == b.spec_kv_hash(),
        opt_link_merkle(a.spec_link(true)) == opt_link_merkle(b.spec_link(true)),
        opt_link_merkle(a.spec_link(false)) == opt_link_merkle(b.spec_link(false)),
    ensures
        a.spec_merkle() == b.spec_merkle(),
{
}

/// On a well-formed tree, the height is one more than the taller child's
/// height, the balance factor is the right child's height minus the left
/// child's, and a materialized link records exactly its subtree's height.
pub proof fn lemma_height_composition(t: Tree, left: bool)
    requires
        t.spec_wf(),
    ensures
        t.spec_height() == 1 + int_max(t.spec_child_height(true), t.spec_child_height(false)),
        t.spec_balance_factor() == t.spec_child_height(false) - t.spec_child_height(true),
        (t.spec_link(left) matches Some(l) ==> (link_tree(l) matches Some(sub)
            ==> link_height(l) == sub.spec_height())),
{
    match t.spec_link(left) {
        Some(l) => {
            match l {
                Link::Modified { tree, .. } => {},
                Link::Stored { tree, .. } => {},
                Link::Pruned { .. } => {},
            }
        },
        None => {},
    }
}

/// A sink for committed nodes: `write` persists one node, and `prune`
/// decides, per side, whether to evict the just-committed child from
/// memory. Implemented by the backing store outside this crate.
pub trait Commit {
    /// Persists one node's current key/value/hash summary.
    fn write(&mut self, tree: &Tree) -> Result<(), Error>;

    /// Decides, per side (left first), whether to evict the in-memory child
    /// now that it has been written.
    fn prune(&self, tree: &Tree) -> (bool, bool);
}

/// A sink that persists nothing and prunes nothing.
pub struct NoopCommit {}

impl Commit for NoopCommit {
    fn write(&mut self, _tree: &Tree) -> Result<(), Error> {
        Ok(())
    }

    fn prune(&self, _tree: &Tree) -> (bool, bool) {
        (false, false)
    }
}

/// A source of persisted subtrees: `fetch` materializes the subtree a pruned
/// link refers to. Implemented by the backing store outside this crate; it
/// is trusted to return exactly the subtree that produces the link's
/// recorded hash and heights, while the key is checked by `load` itself.
pub trait Fetch {
    /// Returns the materialized subtree the given pruned link refers to.
    fn fetch(&self, link: &Link) -> (r: Result<Tree, Error>)
        ensures
            (r matches Ok(t) ==> t.spec_wf() && t.spec_committed() && (
            link matches Link::Pruned { hash, child_heights, .. } ==> t.spec_merkle() == hash@
                && t.spec_child_height(true) == child_heights.0 as int && t.spec_child_height(
                false,
            ) == child_heights.1 as int)),
    ;
}

/// Names a side of a node: `"left"` or `"right"`.
pub fn side_to_str(left: bool) -> (r: &'static str)
    ensures
        left ==> r@ == "left"@,
        !left ==> r@ == "right"@,
{
    if left {
        "left"
    } else {
        "right"
    }
}

} // verus!
