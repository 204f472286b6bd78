//! The fixed-arity Merkle tree over circuit identifiers and its membership
//! paths.
//!
//! A tree level is a list of digests; the next level hashes adjacent pairs.
//! A membership path holds, bottom-up, the sibling digest and the position bit
//! (`true` when the walked node is a right child) of every level, and
//! recomputing the root from a leaf along a path of the tree yields the tree's
//! root.

use vstd::prelude::*;
use vstd::arithmetic::div_mod::lemma_fundamental_div_mod;
use crate::bytes::{bytes_clone, bytes_concat, bytes_eq, bytes_view};
use crate::crh::{crh, hash_bytes, TAG_LEAF, TAG_NODE};

verus! {

/// Digest of a leaf byte string.
pub open spec fn leaf_hash(id: Seq<u8>) -> Seq<u8> {
    crh(TAG_LEAF, id)
}

/// Digest of an interior node over its two children.
pub open spec fn node_hash(l: Seq<u8>, r: Seq<u8>) -> Seq<u8> {
    crh(TAG_NODE, l + r)
}

/// The level above: adjacent pairs, hashed.
pub open spec fn level_up(level: Seq<Seq<u8>>) -> Seq<Seq<u8>> {
    Seq::new(level.len() / 2, |i: int| node_hash(level[2 * i], level[2 * i + 1]))
}

/// Whether a length is a power of two.
pub open spec fn is_pow2(n: nat) -> bool
    decreases n,
{
    if n == 0 {
        false
    } else if n == 1 {
        true
    } else {
        n % 2 == 0 && is_pow2(n / 2)
    }
}

/// The root digest of a level: hash pairs upward until one digest is left.
pub open spec fn root_of(level: Seq<Seq<u8>>) -> Seq<u8>
    decreases level.len(),
{
    if level.len() <= 1 {
        if level.len() == 1 {
            level[0]
        } else {
            Seq::empty()
        }
    } else {
        root_of(level_up(level))
    }
}

/// The sibling digests of leaf `j`, bottom-up.
pub open spec fn path_siblings(level: Seq<Seq<u8>>, j: int) -> Seq<Seq<u8>>
    decreases level.len(),
{
    if level.len() <= 1 {
        Seq::empty()
    } else {
        let sib = if j % 2 == 0 {
            j + 1
        } else {
            j - 1
        };
        seq![level[sib]] + path_siblings(level_up(level), j / 2)
    }
}

/// The position bits of leaf `j`, bottom-up: `true` for a right child.
pub open spec fn path_bits(level_len: nat, j: int) -> Seq<bool>
    decreases level_len,
{
    if level_len <= 1 {
        Seq::empty()
    } else {
        seq![j % 2 == 1] + path_bits(level_len / 2, j / 2)
    }
}

/// The root implied by a leaf digest and a path.
pub open spec fn path_root(leaf: Seq<u8>, siblings: Seq<Seq<u8>>, bits: Seq<bool>) -> Seq<u8>
    decreases siblings.len(),
{
    if siblings.len() == 0 {
        leaf
    } else {
        let next = if bits.len() > 0 && bits[0] {
            node_hash(siblings[0], leaf)
        } else {
            node_hash(leaf, siblings[0])
        };
        path_root(next, siblings.skip(1), bits.skip(1))
    }
}

/// Recomputing the root from any leaf of a complete level along that leaf's
/// own path yields the root of the level.
pub proof fn lemma_path_recomputes_root(level: Seq<Seq<u8>>, j: int)
    requires
        is_pow2(level.len()),
        0 <= j < level.len(),
    ensures
        path_root(level[j], path_siblings(level, j), path_bits(level.len(), j)) == root_of(level),
    decreases level.len(),
{
    if level.len() == 1 {
    } else {
        let up = level_up(level);
        lemma_fundamental_div_mod(j, 2);
        let next = if j % 2 == 1 {
            node_hash(level[j - 1], level[j])
        } else {
            node_hash(level[j], level[j + 1])
        };
        assert(up[j / 2] == next);
        let sibs = path_siblings(level, j);
        let bits = path_bits(level.len(), j);
        assert(sibs.skip(1) =~= path_siblings(up, j / 2));
        assert(bits.skip(1) =~= path_bits(up.len(), j / 2));
        lemma_path_recomputes_root(up, j / 2);
    }
}

/// A recomputed root is a digest: 32 bytes, whatever the path holds.
pub proof fn lemma_path_root_len(leaf: Seq<u8>, siblings: Seq<Seq<u8>>, bits: Seq<bool>)
    requires
        leaf.len() == 32,
    ensures
        path_root(leaf, siblings, bits).len() == 32,
    decreases siblings.len(),
{
    if siblings.len() > 0 {
        let next = if bits.len() > 0 && bits[0] {
            node_hash(siblings[0], leaf)
        } else {
            node_hash(leaf, siblings[0])
        };
        crate::crh::lemma_crh_len(TAG_NODE, siblings[0] + leaf);
        crate::crh::lemma_crh_len(TAG_NODE, leaf + siblings[0]);
        lemma_path_root_len(next, siblings.skip(1), bits.skip(1));
    }
}

/// A membership path: sibling digests and position bits, bottom-up.
pub struct MerklePath {
    /// Sibling digest at each level, from the leaf level upward.
    pub siblings: Vec<Vec<u8>>,
    /// Position bit at each level: `true` when the walked node is a right child.
    pub bits: Vec<bool>,
}

/// The mathematical content of a membership path.
pub struct MerklePathView {
    /// Sibling digest at each level.
    pub siblings: Seq<Seq<u8>>,
    /// Position bit at each level.
    pub bits: Seq<bool>,
}

impl View for MerklePath {
    type V = MerklePathView;

    open spec fn view(&self) -> MerklePathView {
        MerklePathView { siblings: bytes_view(self.siblings@), bits: self.bits@ }
    }
}

impl MerklePath {
    /// The root implied by this path for the given leaf byte string.
    pub open spec fn implied_root(&self, id: Seq<u8>) -> Seq<u8> {
        path_root(leaf_hash(id), self@.siblings, self@.bits)
    }

    /// Recompute the root implied by this path for the leaf byte string `id`.
    pub fn calculate_root(&self, id: &Vec<u8>) -> (r: Vec<u8>)
        requires
            self.bits@.len() == self.siblings@.len(),
        ensures
            r@ == self.implied_root(id@),
    {
        let mut cur = hash_bytes(TAG_LEAF, id);
        let mut k: usize = 0;
        proof {
            assert(self@.siblings.skip(0) =~= self@.siblings);
            assert(self@.bits.skip(0) =~= self@.bits);
        }
        while k < self.siblings.len()
            invariant
                k <= self.siblings@.len(),
                self.bits@.len() == self.siblings@.len(),
                path_root(cur@, self@.siblings.skip(k as int), self@.bits.skip(k as int))
                    == self.implied_root(id@),
            decreases self.siblings@.len() - k,
        {
            proof {
                assert(self@.siblings.skip(k as int)[0] == self.siblings@[k as int]@);
                assert(self@.siblings.skip(k as int).skip(1) =~= self@.siblings.skip(k as int + 1));
                assert(self@.bits.skip(k as int).skip(1) =~= self@.bits.skip(k as int + 1));
            }
            let joined = if self.bits[k] {
                bytes_concat(&self.siblings[k], &cur)
            } else {
                bytes_concat(&cur, &self.siblings[k])
            };
            cur = hash_bytes(TAG_NODE, &joined);
            k = k + 1;
        }
        cur
    }

    /// A fresh copy of this path.
    pub fn duplicate(&self) -> (r: MerklePath)
        ensures
            r@ == self@,
    {
        let mut siblings: Vec<Vec<u8>> = Vec::new();
        let mut i: usize = 0;
        while i < self.siblings.len()
            invariant
                i <= self.siblings@.len(),
                siblings@.len() == i,
                forall|k: int| 0 <= k < i ==> siblings@[k]@ == self.siblings@[k]@,
            decreases self.siblings@.len() - i,
        {
            siblings.push(bytes_clone(&self.siblings[i]));
            i = i + 1;
        }
        let mut bits: Vec<bool> = Vec::new();
        let mut j: usize = 0;
        while j < self.bits.len()
            invariant
                j <= self.bits@.len(),
                bits@ == self.bits@.take(j as int),
            decreases self.bits@.len() - j,
        {
            bits.push(self.bits[j]);
            j = j + 1;
            proof {
                assert(bits@ =~= self.bits@.take(j as int));
            }
        }
        let r = MerklePath { siblings, bits };
        proof {
            assert(bits@ =~= self.bits@);
            assert(r@.siblings =~= self@.siblings);
        }
        r
    }

    /// Whether this path proves that `id` is a leaf of the tree whose root is
    /// `root`.
    pub fn verify(&self, root: &Vec<u8>, id: &Vec<u8>) -> (r: bool)
        requires
            self.bits@.len() == self.siblings@.len(),
        ensures
            r == (self.implied_root(id@) == root@),
    {
        let candidate = self.calculate_root(id);
        bytes_eq(&candidate, root)
    }
}

/// Hash a whole level into the level above it.
fn level_up_exec(level: &Vec<Vec<u8>>) -> (r: Vec<Vec<u8>>)
    requires
        level@.len() % 2 == 0,
    ensures
        bytes_view(r@) == level_up(bytes_view(level@)),
{
    let mut r: Vec<Vec<u8>> = Vec::new();
    let mut i: usize = 0;
    while i + 1 < level.len()
        invariant
            i <= level@.len(),
            i % 2 == 0,
            level@.len() % 2 == 0,
            bytes_view(r@).len() == i / 2,
            forall|k: int|
                0 <= k < i / 2 ==> bytes_view(r@)[k] == node_hash(
                    bytes_view(level@)[2 * k],
                    bytes_view(level@)[2 * k + 1],
                ),
        decreases level@.len() - i,
    {
        let joined = bytes_concat(&level[i], &level[i + 1]);
        let node = hash_bytes(TAG_NODE, &joined);
        let ghost prev = r@;
        r.push(node);
        proof {
            assert(bytes_view(r@) =~= bytes_view(prev).push(node@));
            assert((i + 2) / 2 == i / 2 + 1);
            assert(bytes_view(r@)[i as int / 2] == node_hash(
                bytes_view(level@)[i as int],
                bytes_view(level@)[i as int + 1],
            ));
        }
        i = i + 2;
    }
    proof {
        assert(i == level@.len());
        assert(bytes_view(r@) =~= level_up(bytes_view(level@)));
    }
    r
}

/// Hash a complete level of digests up to its root.
pub fn root_from_level(level: Vec<Vec<u8>>) -> (r: Vec<u8>)
    requires
        is_pow2(level@.len()),
    ensures
        r@ == root_of(bytes_view(level@)),
{
    let mut cur = level;
    while cur.len() > 1
        invariant
            is_pow2(cur@.len()),
            root_of(bytes_view(cur@)) == root_of(bytes_view(level@)),
        decreases cur@.len(),
    {
        proof {
            assert(cur@.len() % 2 == 0 && is_pow2(cur@.len() / 2));
        }
        let next = level_up_exec(&cur);
        proof {
            assert(bytes_view(next@).len() == next@.len());
            assert(level_up(bytes_view(cur@)).len() == bytes_view(cur@).len() / 2);
        }
        cur = next;
    }
    bytes_clone(&cur[0])
}

/// Extract the membership path of leaf `j` from a complete level of digests.
pub fn path_from_level(level: Vec<Vec<u8>>, j: usize) -> (r: MerklePath)
    requires
        is_pow2(level@.len()),
        j < level@.len(),
    ensures
        r@.siblings == path_siblings(bytes_view(level@), j as int),
        r@.bits == path_bits(bytes_view(level@).len(), j as int),
        r@.bits.len() == r@.siblings.len(),
{
    let mut siblings: Vec<Vec<u8>> = Vec::new();
    let mut bits: Vec<bool> = Vec::new();
    let mut cur = level;
    let mut cj: usize = j;
    let ghost level0 = bytes_view(cur@);
    while cur.len() > 1
        invariant
            is_pow2(cur@.len()),
            cj < cur@.len(),
            bytes_view(siblings@).len() == bits@.len(),
            path_siblings(level0, j as int) == bytes_view(siblings@) + path_siblings(
                bytes_view(cur@),
                cj as int,
            ),
            path_bits(level0.len(), j as int) == bits@ + path_bits(
                bytes_view(cur@).len(),
                cj as int,
            ),
        decreases cur@.len(),
    {
        let sib: usize = if cj % 2 == 0 {
            cj + 1
        } else {
            cj - 1
        };
        proof {
            lemma_fundamental_div_mod(cj as int, 2);
        }
        siblings.push(bytes_clone(&cur[sib]));
        bits.push(cj % 2 == 1);
        proof {
            assert(bytes_view(siblings@) =~= bytes_view(siblings@.drop_last()) + seq![
                bytes_view(cur@)[sib as int],
            ]);
            assert(path_siblings(level0, j as int) =~= bytes_view(siblings@) + path_siblings(
                level_up(bytes_view(cur@)),
                cj as int / 2,
            ));
            assert(path_bits(level0.len(), j as int) =~= bits@ + path_bits(
                bytes_view(cur@).len() / 2,
                cj as int / 2,
            ));
        }
        proof {
            assert(cur@.len() % 2 == 0 && is_pow2(cur@.len() / 2));
        }
        let next = level_up_exec(&cur);
        proof {
            assert(bytes_view(next@).len() == next@.len());
            assert(level_up(bytes_view(cur@)).len() == bytes_view(cur@).len() / 2);
        }
        cur = next;
        cj = cj / 2;
    }
    proof {
        assert(path_siblings(bytes_view(cur@), cj as int) =~= Seq::<Seq<u8>>::empty());
        assert(path_bits(bytes_view(cur@).len(), cj as int) =~= Seq::<bool>::empty());
        assert(path_siblings(level0, j as int) =~= bytes_view(siblings@));
        assert(path_bits(level0.len(), j as int) =~= bits@);
    }
    MerklePath { siblings, bits }
}

} // verus!
