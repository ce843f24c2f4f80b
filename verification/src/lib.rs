//! The node-level engine of an authenticated (Merkle) AVL key/value tree,
//! together with a proof map that reconstructs and queries a verified subset
//! of the tree's data from a proof.
//!
//! The tree side offers a recursive, ownership-transferring node type whose
//! children are held through a three-state `Link` (hash-only, stored, or
//! modified), with attach/detach/walk mutation, bottom-up commit through a
//! `Commit` sink, and on-demand load through a `Fetch` source.
//!
//! The map side ingests proof nodes in ascending key order and answers point
//! and range queries with gap and absence detection.

mod bytes;
mod error;
pub mod hash;
mod map;
mod tree;

pub use bytes::{
    cmp_bytes, lemma_lex_leq_transitive, lemma_lex_lt_asymmetric, lemma_lex_lt_irreflexive,
    lemma_lex_lt_transitive, lex_leq, lex_lt, ByteOrder,
};
pub use error::Error;
pub use hash::{kv_hash, node_hash, null_hash, HASH_LENGTH};
pub use map::{
    entries_sorted, gap_at, is_first_geq, is_first_gt, last_key_lt, row_ok, spec_has_key,
    JsFlatMap, JsMap, JsMapBuilder, MapEntry, Node,
};
pub use tree::{
    attach_child_ok, attached_link, int_max, lemma_committed_implies_clean, lemma_hash_pure,
    lemma_height_composition, lemma_merkle_composition, link_child_heights, link_clean,
    link_committed, link_hash, link_height, link_key, link_merkle, link_pending_writes, link_size,
    link_tree, link_wf, modified_link_for, opt_link_clean, opt_link_committed, opt_link_merkle,
    opt_link_size, opt_link_wf, side_to_str, Commit, Fetch, Link, NoopCommit, Tree,
};
