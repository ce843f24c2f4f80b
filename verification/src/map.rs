//! The proof map: an ordered, queryable reconstruction of the key/value
//! pairs proven by a Merkle proof.
//!
//! A builder consumes proof nodes in strictly ascending key order and marks,
//! for every entry, whether it is known to be contiguous with its predecessor
//! (no leaf was omitted between them). The finished map answers point
//! lookups and range queries, detecting by key-order reasoning alone any gap
//! the proof might hide: a query that touches elided data yields a
//! missing-data error rather than an unverifiable answer.

use vstd::prelude::*;

use crate::bytes::{
    cmp_bytes, lemma_lex_leq_transitive, lemma_lex_lt_asymmetric, lemma_lex_lt_irreflexive,
    lemma_lex_lt_transitive, lex_leq, lex_lt, to_vec_bytes, ByteOrder,
};
use crate::error::Error;

verus! {

/// One node of a proof, as delivered by the proof-verification stage: a full
/// key/value leaf, a leaf with only its key/value hash, or an opaque subtree
/// hash.
pub enum Node {
    /// A full key/value leaf.
    KV(Vec<u8>, Vec<u8>),
    /// A leaf whose key/value pair was elided, leaving only its hash.
    KVHash(crate::hash::Hash),
    /// A subtree that was elided, leaving only its hash.
    Hash(crate::hash::Hash),
}

/// One entry of the map: a proven key/value pair, and whether it is known to
/// be adjacent in key order to the entry before it.
pub struct MapEntry {
    /// The entry's key.
    pub key: Vec<u8>,
    /// True when the proof shows no leaf was omitted immediately before this
    /// entry in key order.
    pub contiguous: bool,
    /// The entry's value.
    pub value: Vec<u8>,
}

/// Entries are in strictly ascending key order, with unique keys.
pub open spec fn entries_sorted(s: Seq<MapEntry>) -> bool {
    forall|i: int, j: int|
        0 <= i < j < s.len() ==> #[trigger] lex_lt(s[i].key@, s[j].key@)
}

/// The last entry's key (if any) comes strictly before `k`.
pub open spec fn last_key_lt(s: Seq<MapEntry>, k: Seq<u8>) -> bool {
    s.len() == 0 || lex_lt(s.last().key@, k)
}

/// Some entry holds the key `k`.
pub open spec fn spec_has_key(s: Seq<MapEntry>, k: Seq<u8>) -> bool {
    exists|i: int| 0 <= i < s.len() && (#[trigger] s[i].key@) == k
}

/// `j` is the index of the first entry whose key is `k` or greater.
pub open spec fn is_first_geq(s: Seq<MapEntry>, k: Seq<u8>, j: int) -> bool {
    &&& 0 <= j <= s.len()
    &&& forall|i: int| 0 <= i < j ==> lex_lt(#[trigger] s[i].key@, k)
    &&& (j < s.len() ==> lex_leq(k, s[j].key@))
}

/// `j` is the index of the first entry whose key is strictly greater than
/// `k`.
pub open spec fn is_first_gt(s: Seq<MapEntry>, k: Seq<u8>, j: int) -> bool {
    &&& 0 <= j <= s.len()
    &&& forall|i: int| 0 <= i < j ==> !lex_lt(k, #[trigger] s[i].key@)
    &&& (j < s.len() ==> lex_lt(k, s[j].key@))
}

/// Whether the proof leaves a possible gap just past the entry at `j - 1`:
/// at the end of the entries the proof must cover the tree's right edge, and
/// anywhere else the entry at `j` must be contiguous.
pub open spec fn gap_at(s: Seq<MapEntry>, right_edge: bool, j: int) -> bool {
    if j == s.len() {
        !right_edge
    } else {
        !s[j].contiguous
    }
}

/// An entry yielded by a range query is trustworthy when it is contiguous
/// with its predecessor, or is an exact match for the range's start bound,
/// which the caller vouched for.
pub open spec fn row_ok(e: MapEntry, start: Seq<u8>) -> bool {
    e.contiguous || e.key@ == start
}

/// At most one index is the first past `k`.
proof fn lemma_first_gt_unique(s: Seq<MapEntry>, k: Seq<u8>, j1: int, j2: int)
    requires
        is_first_gt(s, k, j1),
        is_first_gt(s, k, j2),
    ensures
        j1 == j2,
{
    if j1 < j2 {
        assert(lex_lt(k, s[j1].key@));
        assert(!lex_lt(k, s[j1].key@));
    }
    if j2 < j1 {
        assert(lex_lt(k, s[j2].key@));
        assert(!lex_lt(k, s[j2].key@));
    }
}

/// Appending an entry keyed past the last entry keeps the entries sorted.
proof fn lemma_sorted_push(s: Seq<MapEntry>, e: MapEntry)
    requires
        entries_sorted(s),
        last_key_lt(s, e.key@),
    ensures
        entries_sorted(s.push(e)),
{
    let t = s.push(e);
    assert forall|i: int, j: int| 0 <= i < j < t.len() implies #[trigger] lex_lt(
        t[i].key@,
        t[j].key@,
    ) by {
        if j < s.len() {
        } else {
            assert(t[j] == e);
            if i < s.len() - 1 {
                assert(lex_lt(s[i].key@, s[s.len() - 1].key@));
                lemma_lex_lt_transitive(s[i].key@, s[s.len() - 1].key@, e.key@);
            }
        }
    }
}

/// `Map` stores data extracted from a proof (which has already been
/// verified against a known root hash), and allows a consumer to access the
/// data by looking up individual keys with `get`, or iterating over ranges
/// with `range`.
pub struct JsMap {
    entries: Vec<MapEntry>,
    right_edge: bool,
}

/// Builds a `JsMap` by ingesting the nodes contained in a proof, in
/// ascending key order.
pub struct JsMapBuilder {
    map: JsMap,
}

impl JsMapBuilder {
    /// The map under construction.
    pub closed spec fn spec_map(self) -> JsMap {
        self.map
    }

    /// Creates a new builder with an empty internal map.
    pub fn new() -> (r: JsMapBuilder)
        ensures
            r.spec_map().spec_entries() == Seq::<MapEntry>::empty(),
            r.spec_map().spec_right_edge(),
            r.spec_map().spec_wf(),
    {
        JsMapBuilder { map: JsMap { entries: Vec::new(), right_edge: true } }
    }

    /// Whether the most recently ingested node was a full key/value leaf,
    /// so that nothing is known to have been elided after the last entry.
    pub fn right_edge(&self) -> (r: bool)
        ensures
            r == self.spec_map().spec_right_edge(),
    {
        self.map.right_edge
    }

    /// Adds the node's data to the underlying map (if the node is a full
    /// key/value leaf), or makes a note of non-contiguous data (if the node
    /// is hash-only).
    ///
    /// A full leaf must arrive with a key strictly greater than every key
    /// seen so far: an out-of-order or repeated key yields a key-order error
    /// and leaves the map unchanged. This is the primary defense against a
    /// malformed or adversarial proof claiming two values for one key.
    pub fn insert(&mut self, node: &Node) -> (r: Result<(), Error>)
        requires
            old(self).spec_map().spec_wf(),
        ensures
            final(self).spec_map().spec_wf(),
            (node matches Node::KV(k, v) ==> (if last_key_lt(
                old(self).spec_map().spec_entries(),
                k@,
            ) {
                &&& r is Ok
                &&& final(self).spec_map().spec_entries().len() == old(self).spec_map().spec_entries().len() + 1
                &&& final(self).spec_map().spec_entries().take(
                    old(self).spec_map().spec_entries().len() as int,
                ) == old(self).spec_map().spec_entries()
                &&& final(self).spec_map().spec_entries().last().key@ == k@
                &&& final(self).spec_map().spec_entries().last().value@ == v@
                &&& final(self).spec_map().spec_entries().last().contiguous == old(self).spec_map().spec_right_edge()
                &&& final(self).spec_map().spec_right_edge()
            } else {
                r == Err::<(), Error>(Error::KeyOrder) && final(self).spec_map() == old(self).spec_map()
            })),
            (!(node is KV) ==> r is Ok && final(self).spec_map().spec_entries() == old(self).spec_map().spec_entries() && !final(self).spec_map().spec_right_edge()),
    {
        match node {
            Node::KV(key, value) => {
                let n = self.map.entries.len();
                if n > 0 {
                    let prev_greater_or_equal = !matches!(
                        cmp_bytes(self.map.entries[n - 1].key.as_slice(), key.as_slice()),
                        ByteOrder::Less
                    );
                    if prev_greater_or_equal {
                        return Err(Error::KeyOrder);
                    }
                }
                let entry = MapEntry {
                    key: to_vec_bytes(key.as_slice()),
                    contiguous: self.map.right_edge,
                    value: to_vec_bytes(value.as_slice()),
                };
                proof {
                    lemma_sorted_push(self.map.entries@, entry);
                }
                self.map.entries.push(entry);
                self.map.right_edge = true;
                proof {
                    assert(final(self).spec_map().spec_entries().take(
                        old(self).spec_map().spec_entries().len() as int,
                    ) =~= old(self).spec_map().spec_entries());
                }
                Ok(())
            },
            _ => {
                self.map.right_edge = false;
                Ok(())
            },
        }
    }

    /// Consumes the builder and returns its internal map.
    pub fn build(self) -> (r: JsMap)
        ensures
            r == self.spec_map(),
    {
        self.map
    }
}

impl JsMap {
    /// The map's entries, in ascending key order.
    pub closed spec fn spec_entries(self) -> Seq<MapEntry> {
        self.entries@
    }

    /// Whether the proof's coverage is known to extend, without gap, to the
    /// largest key in the whole tree.
    pub closed spec fn spec_right_edge(self) -> bool {
        self.right_edge
    }

    /// The map's invariant: entries in strictly ascending key order.
    pub open spec fn spec_wf(self) -> bool {
        entries_sorted(self.spec_entries())
    }

    /// The entries, for inspection.
    pub fn entries(&self) -> (r: &Vec<MapEntry>)
        ensures
            r@ == self.spec_entries(),
    {
        &self.entries
    }

    /// Whether the proof's coverage reaches the tree's right edge.
    pub fn right_edge(&self) -> (r: bool)
        ensures
            r == self.spec_right_edge(),
    {
        self.right_edge
    }

    /// Gets the value for a single key, `None` if the key was proven not to
    /// exist in the tree, or a missing-data error if the proof neither
    /// includes the key nor proves it absent.
    ///
    /// Absence is proven exactly when the first entry past the key is
    /// contiguous (the proof shows no leaf between the bracketing entries),
    /// or, past the last entry, when the proof covers the tree's right edge.
    pub fn get(&self, key: &[u8]) -> (r: Result<Option<Vec<u8>>, Error>)
        requires
            self.spec_wf(),
        ensures
            (spec_has_key(self.spec_entries(), key@) ==> (r matches Ok(ov) && ov matches Some(v)
                && exists|i: int|
                0 <= i < self.spec_entries().len() && (#[trigger] self.spec_entries()[i].key@)
                    == key@ && v@ == self.spec_entries()[i].value@)),
            (!spec_has_key(self.spec_entries(), key@) ==> forall|j: int|
                is_first_gt(self.spec_entries(), key@, j) ==> r == (if gap_at(
                    self.spec_entries(),
                    self.spec_right_edge(),
                    j,
                ) {
                    Err::<Option<Vec<u8>>, Error>(Error::MissingData)
                } else {
                    Ok::<Option<Vec<u8>>, Error>(None)
                })),
    {
        let ghost s = self.spec_entries();
        let n = self.entries.len();
        let mut i: usize = 0;
        while i < n
            invariant
                self.spec_wf(),
                s == self.spec_entries(),
                n == s.len(),
                0 <= i <= n,
                forall|t: int| 0 <= t < i ==> lex_lt(#[trigger] s[t].key@, key@),
            decreases n - i,
        {
            match cmp_bytes(self.entries[i].key.as_slice(), key) {
                ByteOrder::Equal => {
                    return Ok(Some(to_vec_bytes(self.entries[i].value.as_slice())));
                },
                ByteOrder::Less => {
                    i += 1;
                },
                ByteOrder::Greater => {
                    proof {
                        assert(is_first_gt(s, key@, i as int)) by {
                            assert forall|t: int| 0 <= t < i implies !lex_lt(
                                key@,
                                #[trigger] s[t].key@,
                            ) by {
                                lemma_lex_lt_asymmetric(s[t].key@, key@);
                            }
                        }
                        assert(!spec_has_key(s, key@)) by {
                            assert forall|t: int|
                                0 <= t < s.len() implies (#[trigger] s[t].key@) != key@ by {
                                if t < i {
                                    lemma_lex_lt_irreflexive(key@);
                                    if s[t].key@ == key@ {
                                        assert(lex_lt(key@, key@));
                                    }
                                } else if t == i {
                                    lemma_lex_lt_irreflexive(key@);
                                    if s[t].key@ == key@ {
                                        assert(lex_lt(key@, key@));
                                    }
                                } else {
                                    assert(lex_lt(s[i as int].key@, s[t].key@));
                                    lemma_lex_lt_transitive(key@, s[i as int].key@, s[t].key@);
                                    lemma_lex_lt_irreflexive(key@);
                                    if s[t].key@ == key@ {
                                        assert(lex_lt(key@, key@));
                                    }
                                }
                            }
                        }
                        assert forall|j: int| is_first_gt(s, key@, j) implies j == i as int by {
                            lemma_first_gt_unique(s, key@, j, i as int);
                        }
                    }
                    if self.entries[i].contiguous {
                        return Ok(None);
                    } else {
                        return Err(Error::MissingData);
                    }
                },
            }
        }
        proof {
            assert(is_first_gt(s, key@, n as int)) by {
                assert forall|t: int| 0 <= t < n implies !lex_lt(key@, #[trigger] s[t].key@) by {
                    lemma_lex_lt_asymmetric(s[t].key@, key@);
                }
            }
            assert(!spec_has_key(s, key@)) by {
                assert forall|t: int| 0 <= t < s.len() implies (#[trigger] s[t].key@) != key@ by {
                    lemma_lex_lt_irreflexive(key@);
                    if s[t].key@ == key@ {
                        assert(lex_lt(key@, key@));
                    }
                }
            }
            assert forall|j: int| is_first_gt(s, key@, j) implies j == n as int by {
                lemma_first_gt_unique(s, key@, j, n as int);
            }
        }
        if self.right_edge {
            Ok(None)
        } else {
            Err(Error::MissingData)
        }
    }

    /// Returns an iterator over the entries whose keys lie in
    /// `[start_bound, end_bound)`. If during iteration a gap in the proof's
    /// data is found (within the range, or just past it), the iterator
    /// yields a missing-data error as its final item.
    pub fn range(self, start_bound: Vec<u8>, end_bound: Vec<u8>) -> (r: JsFlatMap)
        requires
            self.spec_wf(),
            lex_leq(start_bound@, end_bound@),
        ensures
            r.spec_iter_wf(),
            r.spec_entries() == self.spec_entries(),
            r.spec_right_edge() == self.spec_right_edge(),
            r.spec_start() == start_bound@,
            r.spec_prev() == start_bound@,
            !r.spec_done(),
            is_first_geq(self.spec_entries(), start_bound@, r.spec_idx() as int),
            is_first_geq(self.spec_entries(), end_bound@, r.spec_hi() as int),
    {
        let lo = find_first_geq(&self.entries, start_bound.as_slice());
        let hi = find_first_geq(&self.entries, end_bound.as_slice());
        let ghost s = self.spec_entries();
        proof {
            assert(lo <= hi) by {
                if hi < lo {
                    assert(lex_lt(s[hi as int].key@, start_bound@));
                    assert(lex_leq(end_bound@, s[hi as int].key@));
                    lemma_lex_leq_transitive(start_bound@, end_bound@, s[hi as int].key@);
                    if lex_lt(start_bound@, s[hi as int].key@) {
                        lemma_lex_lt_asymmetric(s[hi as int].key@, start_bound@);
                    } else {
                        lemma_lex_lt_irreflexive(start_bound@);
                    }
                }
            }
            assert forall|t: int| 0 <= t < lo implies !lex_lt(
                start_bound@,
                #[trigger] s[t].key@,
            ) by {
                lemma_lex_lt_asymmetric(s[t].key@, start_bound@);
            }
            if hi < s.len() {
                lemma_lex_leq_transitive(start_bound@, end_bound@, s[hi as int].key@);
            }
        }
        let prev_key = to_vec_bytes(start_bound.as_slice());
        let JsMap { entries, right_edge } = self;
        JsFlatMap { entries, idx: lo, hi, start_key: start_bound, prev_key, right_edge, done: false }
    }
}

/// Finds the index of the first entry whose key is `k` or greater.
fn find_first_geq(entries: &Vec<MapEntry>, k: &[u8]) -> (r: usize)
    requires
        entries_sorted(entries@),
    ensures
        is_first_geq(entries@, k@, r as int),
{
    let n = entries.len();
    let mut i: usize = 0;
    while i < n
        invariant
            entries_sorted(entries@),
            n == entries@.len(),
            0 <= i <= n,
            forall|t: int| 0 <= t < i ==> lex_lt(#[trigger] entries@[t].key@, k@),
        decreases n - i,
    {
        match cmp_bytes(entries[i].key.as_slice(), k) {
            ByteOrder::Less => {
                i += 1;
            },
            ByteOrder::Equal => {
                return i;
            },
            ByteOrder::Greater => {
                return i;
            },
        }
    }
    i
}

/// A finite, non-restartable walk over one range of a `JsMap`'s entries: it
/// yields each trustworthy entry in order, and ends either cleanly or with
/// the single missing-data error that reports the first gap found.
pub struct JsFlatMap {
    entries: Vec<MapEntry>,
    idx: usize,
    hi: usize,
    start_key: Vec<u8>,
    prev_key: Vec<u8>,
    right_edge: bool,
    done: bool,
}

impl JsFlatMap {
    /// All entries of the underlying map.
    pub closed spec fn spec_entries(self) -> Seq<MapEntry> {
        self.entries@
    }

    /// The index of the next entry to inspect.
    pub closed spec fn spec_idx(self) -> usize {
        self.idx
    }

    /// The index of the first entry past the range.
    pub closed spec fn spec_hi(self) -> usize {
        self.hi
    }

    /// The range's start bound.
    pub closed spec fn spec_start(self) -> Seq<u8> {
        self.start_key@
    }

    /// The last key yielded, or the start bound before any was.
    pub closed spec fn spec_prev(self) -> Seq<u8> {
        self.prev_key@
    }

    /// Whether the underlying map covers the tree's right edge.
    pub closed spec fn spec_right_edge(self) -> bool {
        self.right_edge
    }

    /// Whether iteration has finished (cleanly or with the one error).
    pub closed spec fn spec_done(self) -> bool {
        self.done
    }

    /// The iterator's invariant: entries sorted, position within bounds,
    /// everything before the position at or below the last yielded key, and
    /// the first entry past the range no smaller than it.
    pub open spec fn spec_iter_wf(self) -> bool {
        &&& entries_sorted(self.spec_entries())
        &&& self.spec_idx() <= self.spec_hi() <= self.spec_entries().len()
        &&& forall|t: int|
            0 <= t < self.spec_idx() ==> !lex_lt(
                self.spec_prev(),
                #[trigger] self.spec_entries()[t].key@,
            )
        &&& (self.spec_hi() < self.spec_entries().len() ==> lex_leq(
            self.spec_prev(),
            self.spec_entries()[self.spec_hi() as int].key@,
        ))
    }

    /// Yields the next entry of the range, a missing-data error if the next
    /// entry is untrustworthy or the range's end is uncovered, or nothing
    /// once the range is exhausted. After an error, nothing more is yielded.
    pub fn next(&mut self) -> (r: Option<Result<(Vec<u8>, Vec<u8>), Error>>)
        requires
            old(self).spec_iter_wf(),
        ensures
            final(self).spec_iter_wf(),
            final(self).spec_entries() == old(self).spec_entries(),
            final(self).spec_hi() == old(self).spec_hi(),
            final(self).spec_start() == old(self).spec_start(),
            final(self).spec_right_edge() == old(self).spec_right_edge(),
            (old(self).spec_done() ==> r is None && final(self).spec_done()),
            ((!old(self).spec_done() && old(self).spec_idx() < old(self).spec_hi()) ==> (if row_ok(
                old(self).spec_entries()[old(self).spec_idx() as int],
                old(self).spec_start(),
            ) {
                &&& (r matches Some(item) && item matches Ok(kv) && kv.0@ == old(self).spec_entries()[old(self).spec_idx() as int].key@ && kv.1@ == old(self).spec_entries()[old(self).spec_idx() as int].value@)
                &&& final(self).spec_idx() == old(self).spec_idx() + 1
                &&& final(self).spec_prev() == old(self).spec_entries()[old(self).spec_idx() as int].key@
                &&& !final(self).spec_done()
            } else {
                r == Some(Err::<(Vec<u8>, Vec<u8>), Error>(Error::MissingData)) && final(self).spec_done()
            })),
            ((!old(self).spec_done() && old(self).spec_idx() == old(self).spec_hi()) ==> (final(self).spec_done() && forall|j: int|
                is_first_gt(old(self).spec_entries(), old(self).spec_prev(), j) ==> r == (if gap_at(
                    old(self).spec_entries(),
                    old(self).spec_right_edge(),
                    j,
                ) {
                    Some(Err::<(Vec<u8>, Vec<u8>), Error>(Error::MissingData))
                } else {
                    None::<Result<(Vec<u8>, Vec<u8>), Error>>
                }))),
    {
        if self.done {
            return None;
        }
        let ghost s = self.spec_entries();
        if self.idx < self.hi {
            let contiguous = self.entries[self.idx].contiguous;
            let start_match = matches!(
                cmp_bytes(self.entries[self.idx].key.as_slice(), self.start_key.as_slice()),
                ByteOrder::Equal
            );
            if !contiguous && !start_match {
                self.done = true;
                return Some(Err(Error::MissingData));
            }
            let key = to_vec_bytes(self.entries[self.idx].key.as_slice());
            let value = to_vec_bytes(self.entries[self.idx].value.as_slice());
            let ghost old_idx = self.idx as int;
            self.prev_key = to_vec_bytes(self.entries[self.idx].key.as_slice());
            self.idx = self.idx + 1;
            proof {
                assert forall|t: int| 0 <= t < self.spec_idx() implies !lex_lt(
                    self.spec_prev(),
                    #[trigger] s[t].key@,
                ) by {
                    if t < old_idx {
                        assert(lex_lt(s[t].key@, s[old_idx].key@));
                        lemma_lex_lt_asymmetric(s[t].key@, s[old_idx].key@);
                    } else {
                        lemma_lex_lt_irreflexive(s[old_idx].key@);
                    }
                }
                if self.spec_hi() < s.len() {
                    assert(lex_lt(s[old_idx].key@, s[self.spec_hi() as int].key@));
                }
            }
            return Some(Ok((key, value)));
        }
        // End of the range: make sure the proof has not elided data just
        // past it.
        self.done = true;
        let n = self.entries.len();
        let hi = self.hi;
        let j = if hi < n && matches!(
            cmp_bytes(self.entries[hi].key.as_slice(), self.prev_key.as_slice()),
            ByteOrder::Equal
        ) {
            hi + 1
        } else {
            hi
        };
        proof {
            let prev = self.spec_prev();
            assert(is_first_gt(s, prev, j as int)) by {
                if j == hi + 1 {
                    assert forall|i: int| 0 <= i < j implies !lex_lt(prev, #[trigger] s[i].key@) by {
                        if i == hi as int {
                            lemma_lex_lt_irreflexive(prev);
                        }
                    }
                    if (j as int) < s.len() {
                        assert(lex_lt(s[hi as int].key@, s[j as int].key@));
                    }
                } else {
                    if (j as int) < s.len() {
                        assert(lex_leq(prev, s[hi as int].key@));
                        assert(s[hi as int].key@ != prev);
                    }
                }
            }
            assert forall|jj: int| is_first_gt(s, prev, jj) implies jj == j as int by {
                lemma_first_gt_unique(s, prev, jj, j as int);
            }
        }
        if j == n {
            if self.right_edge {
                None
            } else {
                Some(Err(Error::MissingData))
            }
        } else {
            if self.entries[j].contiguous {
                None
            } else {
                Some(Err(Error::MissingData))
            }
        }
    }
}

} // verus!
