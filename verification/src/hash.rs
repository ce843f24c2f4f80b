//! Hash digests and the two hash compositions used by the tree.
//!
//! A node's `kv_hash` digests its key/value pair; a node's hash digests its
//! `kv_hash` together with the hashes of its two children, an absent child
//! standing in as the all-zero sentinel. The digest itself comes from an
//! outside hash function and is treated as an opaque function of its input.

use blake2::digest::{Update, VariableOutput};
use blake2::Blake2bVar;
use vstd::prelude::*;

verus! {

/// The length in bytes of a `Hash`.
pub const HASH_LENGTH: usize = 20;

/// A hash digest, as produced by the tree's hash function.
pub type Hash = [u8; 20];

/// The all-zero sentinel digest that stands for an absent child.
pub open spec fn null_hash_seq() -> Seq<u8> {
    Seq::new(20, |i: int| 0u8)
}

/// Returns the all-zero sentinel digest that stands for an absent child.
pub fn null_hash() -> (r: Hash)
    ensures
        r@ == null_hash_seq(),
{
    let r: Hash = [0; 20];
    proof {
        assert(r@ =~= null_hash_seq());
    }
    r
}

/// The digest that the tree's hash function assigns to the given input bytes.
pub uninterp spec fn digest_of(data: Seq<u8>) -> Seq<u8>;

/// Relies on blake2::Blake2bVar with a 20-byte output size: the digest is a
/// function of the input bytes alone, and always fills the 20-byte buffer.
#[verifier::external_body]
fn digest(data: &[u8]) -> (r: Hash)
    ensures
        r@ == digest_of(data@),
{
    let mut hasher = Blake2bVar::new(20).unwrap();
    hasher.update(data);
    let mut out = [0u8; 20];
    hasher.finalize_variable(&mut out).unwrap();
    out
}

/// The bytes digested for a key/value pair: the key's length in one byte,
/// the key, the value's length in two big-endian bytes, then the value.
pub open spec fn kv_hash_input(key: Seq<u8>, value: Seq<u8>) -> Seq<u8> {
    seq![key.len() as u8] + key + seq![
        (value.len() / 256) as u8,
        (value.len() % 256) as u8,
    ] + value
}

/// The digest of a key/value pair.
pub open spec fn kv_hash_of(key: Seq<u8>, value: Seq<u8>) -> Seq<u8> {
    digest_of(kv_hash_input(key, value))
}

/// The digest of a node: its `kv_hash` followed by its two child hashes.
pub open spec fn node_hash_of(kv: Seq<u8>, left: Seq<u8>, right: Seq<u8>) -> Seq<u8> {
    digest_of(kv + left + right)
}

/// Appends all of `src` to `dst`.
fn push_all(dst: &mut Vec<u8>, src: &[u8])
    ensures
        final(dst)@ == old(dst)@ + src@,
{
    let mut i: usize = 0;
    while i < src.len()
        invariant
            0 <= i <= src@.len(),
            dst@ == old(dst)@ + src@.take(i as int),
        decreases src@.len() - i,
    {
        let b = src[i];
        dst.push(b);
        proof {
            assert(src@.take(i + 1) =~= src@.take(i as int).push(b));
        }
        i += 1;
    }
    proof {
        assert(src@.take(src@.len() as int) =~= src@);
    }
}

/// Hashes a key/value pair.
///
/// The key must fit its one-byte length prefix and the value its two-byte
/// length prefix.
pub fn kv_hash(key: &[u8], value: &[u8]) -> (r: Hash)
    requires
        key@.len() < 256,
        value@.len() < 65536,
    ensures
        r@ == kv_hash_of(key@, value@),
{
    let mut data: Vec<u8> = Vec::new();
    data.push(key.len() as u8);
    push_all(&mut data, key);
    let value_len = value.len();
    data.push((value_len / 256) as u8);
    data.push((value_len % 256) as u8);
    push_all(&mut data, value);
    proof {
        assert(data@ =~= kv_hash_input(key@, value@));
    }
    digest(data.as_slice())
}

/// Hashes a node from its `kv_hash` and the hashes of its two children.
pub fn node_hash(kv: &Hash, left: &Hash, right: &Hash) -> (r: Hash)
    ensures
        r@ == node_hash_of(kv@, left@, right@),
{
    let mut data: Vec<u8> = Vec::new();
    push_all(&mut data, kv.as_slice());
    push_all(&mut data, left.as_slice());
    push_all(&mut data, right.as_slice());
    proof {
        assert(data@ =~= kv@ + left@ + right@);
    }
    digest(data.as_slice())
}

} // verus!
