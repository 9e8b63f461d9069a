//! Merkle roots over 32-byte leaves, the full list of inner nodes, and the
//! iterated hashing that turns a Merkle root into a group, regional or global
//! proof.
use vstd::prelude::*;

use crate::bytes::{be32, u32_to_be_bytes};
use crate::crypto::{merkle_root_spec, rs_merkle_root, sha256, sha256_spec};
use crate::header::{zero_hash, zero_hash_bytes};
use crate::seqs::{append_bytes, byte_views, copy_bytes};

verus! {

/// The first 32 bytes of every leaf.
pub open spec fn leaf_prefixes(hashes: Seq<Seq<u8>>) -> Seq<Seq<u8>> {
    hashes.map_values(|h: Seq<u8>| h.subrange(0, 32))
}

/// Whether every leaf has at least 32 bytes.
pub open spec fn leaves_long_enough(hashes: Seq<Seq<u8>>) -> bool {
    forall|i: int| 0 <= i < hashes.len() ==> #[trigger] hashes[i].len() >= 32
}

/// The Merkle root of a list of hashes: 32 zero bytes for no hash, else the
/// root of the SHA-256 tree over their first 32 bytes (zero bytes where the
/// tree has no root).
pub open spec fn merkle_root_of(hashes: Seq<Seq<u8>>) -> Seq<u8> {
    if hashes.len() == 0 {
        zero_hash()
    } else {
        match merkle_root_spec(leaf_prefixes(hashes)) {
            Some(r) => r,
            None => zero_hash(),
        }
    }
}

/// The first 32 bytes of each hash.
fn first_32_of_each(hashes: &Vec<Vec<u8>>) -> (leaves: Vec<Vec<u8>>)
    requires
        leaves_long_enough(byte_views(hashes@)),
    ensures
        byte_views(leaves@) == leaf_prefixes(byte_views(hashes@)),
        forall|i: int| 0 <= i < leaves@.len() ==> #[trigger] leaves@[i]@.len() == 32,
{
    let mut leaves: Vec<Vec<u8>> = Vec::new();
    let mut i: usize = 0;
    while i < hashes.len()
        invariant
            i <= hashes@.len(),
            leaves_long_enough(byte_views(hashes@)),
            leaves@.len() == i,
            forall|j: int| 0 <= j < i ==> #[trigger] leaves@[j]@ == hashes@[j]@.subrange(0, 32),
        decreases hashes@.len() - i,
    {
        assert(byte_views(hashes@)[i as int].len() >= 32);
        let h = &hashes[i];
        let mut leaf: Vec<u8> = Vec::new();
        let mut k: usize = 0;
        while k < 32
            invariant
                k <= 32,
                h@.len() >= 32,
                leaf@ =~= h@.subrange(0, k as int),
            decreases 32 - k,
        {
            leaf.push(h[k]);
            k = k + 1;
        }
        leaves.push(leaf);
        i = i + 1;
    }
    assert(byte_views(leaves@) =~= leaf_prefixes(byte_views(hashes@)));
    assert forall|i: int| 0 <= i < leaves@.len() implies #[trigger] leaves@[i]@.len() == 32 by {
        assert(byte_views(hashes@)[i].len() >= 32);
    }
    leaves
}

/// The Merkle root of a list of hashes (`merkle_root_of`). Each hash must
/// have at least 32 bytes: only its first 32 are used.
pub fn compute_merkle_root(hashes: &Vec<Vec<u8>>) -> (root: Vec<u8>)
    requires
        leaves_long_enough(byte_views(hashes@)),
    ensures
        root@ == merkle_root_of(byte_views(hashes@)),
{
    if hashes.len() == 0 {
        return zero_hash_bytes();
    }
    let leaves = first_32_of_each(hashes);
    match rs_merkle_root(&leaves) {
        Some(r) => r,
        None => zero_hash_bytes(),
    }
}

/// One level up a Merkle tree: each pair hashed with SHA-256, a last odd
/// node carried up as it is.
pub open spec fn next_level(level: Seq<Seq<u8>>) -> Seq<Seq<u8>> {
    Seq::new(
        ((level.len() + 1) / 2) as nat,
        |i: int|
            if 2 * i + 1 < level.len() {
                sha256_spec(level[2 * i] + level[2 * i + 1])
            } else {
                level[2 * i]
            },
    )
}

/// Every node of the levels above `level`, level by level, left to right.
pub open spec fn upper_nodes(level: Seq<Seq<u8>>) -> Seq<Seq<u8>>
    decreases level.len(),
{
    if level.len() <= 1 {
        Seq::empty()
    } else {
        next_level(level) + upper_nodes(next_level(level))
    }
}

/// Computes the level above `level` (`next_level`).
fn compute_next_level(level: &Vec<Vec<u8>>) -> (next: Vec<Vec<u8>>)
    ensures
        byte_views(next@) == next_level(byte_views(level@)),
{
    let n = level.len();
    let mut next: Vec<Vec<u8>> = Vec::new();
    let mut i: usize = 0;
    while i < n / 2 + n % 2
        invariant
            n == level@.len(),
            next@.len() == i,
            i <= n / 2 + n % 2,
            forall|j: int| 0 <= j < i ==> #[trigger] next@[j]@ == next_level(byte_views(level@))[j],
        decreases n / 2 + n % 2 - i,
    {
        if 2 * i + 1 < n {
            let mut data: Vec<u8> = Vec::new();
            append_bytes(&mut data, level[2 * i].as_slice());
            append_bytes(&mut data, level[2 * i + 1].as_slice());
            next.push(sha256(data.as_slice()));
        } else {
            next.push(copy_bytes(level[2 * i].as_slice()));
        }
        i = i + 1;
    }
    assert(byte_views(next@) =~= next_level(byte_views(level@)));
    next
}

/// The Merkle root of a list of hashes together with every inner node,
/// level by level (`upper_nodes`); for no hash, zero bytes and no node.
pub fn compute_full_merkle_tree(hashes: &Vec<Vec<u8>>) -> (r: (Vec<u8>, Vec<Vec<u8>>))
    requires
        leaves_long_enough(byte_views(hashes@)),
    ensures
        r.0@ == merkle_root_of(byte_views(hashes@)),
        hashes@.len() > 0 ==> byte_views(r.1@) == upper_nodes(leaf_prefixes(byte_views(hashes@))),
        hashes@.len() == 0 ==> r.1@.len() == 0,
{
    if hashes.len() == 0 {
        return (zero_hash_bytes(), Vec::new());
    }
    let root = compute_merkle_root(hashes);
    let mut current = first_32_of_each(hashes);
    let mut all_nodes: Vec<Vec<u8>> = Vec::new();
    while current.len() > 1
        invariant
            byte_views(all_nodes@) + upper_nodes(byte_views(current@)) == upper_nodes(
                leaf_prefixes(byte_views(hashes@)),
            ),
        decreases current@.len(),
    {
        let next = compute_next_level(&current);
        let ghost before = all_nodes@;
        let mut k: usize = 0;
        while k < next.len()
            invariant
                k <= next@.len(),
                byte_views(all_nodes@) == byte_views(before) + byte_views(next@.subrange(0, k as int)),
            decreases next@.len() - k,
        {
            let ghost mid = all_nodes@;
            all_nodes.push(copy_bytes(next[k].as_slice()));
            assert(byte_views(all_nodes@) =~= byte_views(mid).push(next@[k as int]@));
            assert(byte_views(next@.subrange(0, k + 1)) =~= byte_views(next@.subrange(0, k as int)).push(
                next@[k as int]@,
            ));
            k = k + 1;
        }
        assert(next@.subrange(0, next@.len() as int) =~= next@);
        assert(byte_views(all_nodes@) + upper_nodes(byte_views(next@)) =~= byte_views(before) + upper_nodes(
            byte_views(current@),
        ));
        current = next;
    }
    assert(upper_nodes(byte_views(current@)) =~= Seq::empty());
    assert(byte_views(all_nodes@) =~= byte_views(all_nodes@) + Seq::<Seq<u8>>::empty());
    (root, all_nodes)
}

/// `state` hashed `k` times more: step `i` hashes the state followed by
/// `i` (big-endian 32-bit).
pub open spec fn iterate_sha(state: Seq<u8>, k: nat) -> Seq<u8>
    decreases k,
{
    if k == 0 {
        state
    } else {
        sha256_spec(iterate_sha(state, (k - 1) as nat) + be32((k - 1) as u32))
    }
}

/// Hashes `state` `iterations` times (`iterate_sha`).
pub fn iterate_sha256(state: Vec<u8>, iterations: u32) -> (r: Vec<u8>)
    ensures
        r@ == iterate_sha(state@, iterations as nat),
        state@.len() == 32 ==> r@.len() == 32,
{
    let mut state = state;
    let ghost start = state@;
    let mut i: u32 = 0;
    while i < iterations
        invariant
            i <= iterations,
            state@ == iterate_sha(start, i as nat),
            start.len() == 32 ==> state@.len() == 32,
        decreases iterations - i,
    {
        let mut data: Vec<u8> = Vec::new();
        append_bytes(&mut data, state.as_slice());
        append_bytes(&mut data, u32_to_be_bytes(i).as_slice());
        state = sha256(data.as_slice());
        i = i + 1;
    }
    state
}

/// The proof of one level of the hierarchy for one named unit: SHA-256 of
/// the block hash, the Merkle root of its members and its name, hashed
/// `iterations` more times.
pub open spec fn level_proof(block_hash: Seq<u8>, merkle: Seq<u8>, name: Seq<char>, iterations: u32) -> Seq<u8> {
    iterate_sha(sha256_spec(block_hash + merkle + vstd::utf8::encode_utf8(name)), iterations as nat)
}

/// Computes `level_proof`.
pub fn compute_level_proof(block_hash: &Vec<u8>, merkle: &Vec<u8>, name: &String, iterations: u32) -> (r: Vec<u8>)
    ensures
        r@ == level_proof(block_hash@, merkle@, name@, iterations),
        r@.len() == 32,
{
    let mut data: Vec<u8> = Vec::new();
    append_bytes(&mut data, block_hash.as_slice());
    append_bytes(&mut data, merkle.as_slice());
    append_bytes(&mut data, name.as_str().as_bytes());
    let state = sha256(data.as_slice());
    iterate_sha256(state, iterations)
}

} // verus!
