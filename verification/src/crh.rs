//! The collision-resistant hash used for circuit identifiers, Merkle tree
//! nodes and commitments.
//!
//! The hash folds the input into a 64-bit state with a multiplicative mix and
//! expands the state into a 32-byte digest. A one-byte tag separates the
//! domains in which the hash is used, so a circuit identifier, a tree node and
//! a commitment can never collide by construction alone.

use vstd::prelude::*;
use crate::bytes::{le_bytes, lemma_le_bytes_len, u64_le_bytes};

verus! {

/// Domain tag: hash of a verifying key into a circuit identifier.
pub const TAG_CIRCUIT_ID: u8 = 1;

/// Domain tag: hash of a leaf byte string into a Merkle leaf digest.
pub const TAG_LEAF: u8 = 2;

/// Domain tag: hash of two child digests into a Merkle node digest.
pub const TAG_NODE: u8 = 3;

/// Domain tag: hash of randomness and message into a commitment tag.
pub const TAG_COMMITMENT: u8 = 4;

/// Domain tag: hash of the inner verifying key into the inner circuit identifier.
pub const TAG_INNER_CIRCUIT_ID: u8 = 5;

/// Initial folding state.
pub const FOLD_SEED: u64 = 0xcbf29ce484222325;

/// Multiplier of the folding step.
pub const FOLD_PRIME: u64 = 0x100000001b3;

/// One folding step: absorb one byte into the state.
pub open spec fn fold_step(h: u64, b: u8) -> u64 {
    u64::wrapping_mul(h ^ (b as u64), FOLD_PRIME)
}

/// Fold a whole byte string into the state, left to right.
pub open spec fn fold_bytes(h: u64, s: Seq<u8>) -> u64
    decreases s.len(),
{
    if s.len() == 0 {
        h
    } else {
        fold_bytes(fold_step(h, s[0]), s.skip(1))
    }
}

/// The 32-byte digest of a tagged input: the folded state, expanded by four
/// further tagged folding steps of eight little-endian bytes each.
pub open spec fn crh(tag: u8, input: Seq<u8>) -> Seq<u8> {
    let h = fold_bytes(fold_step(FOLD_SEED, tag), input);
    let h1 = fold_step(h, 1);
    let h2 = fold_step(h1, 2);
    let h3 = fold_step(h2, 3);
    let h4 = fold_step(h3, 4);
    le_bytes(h1 as nat, 8) + le_bytes(h2 as nat, 8) + le_bytes(h3 as nat, 8) + le_bytes(
        h4 as nat,
        8,
    )
}

/// Every digest is exactly 32 bytes long.
pub proof fn lemma_crh_len(tag: u8, input: Seq<u8>)
    ensures
        crh(tag, input).len() == 32,
{
    let h = fold_bytes(fold_step(FOLD_SEED, tag), input);
    lemma_le_bytes_len(fold_step(h, 1) as nat, 8);
    lemma_le_bytes_len(fold_step(fold_step(h, 1), 2) as nat, 8);
    lemma_le_bytes_len(fold_step(fold_step(fold_step(h, 1), 2), 3) as nat, 8);
    lemma_le_bytes_len(fold_step(fold_step(fold_step(fold_step(h, 1), 2), 3), 4) as nat, 8);
}

fn fold_step_exec(h: u64, b: u8) -> (r: u64)
    ensures
        r == fold_step(h, b),
{
    (h ^ (b as u64)).wrapping_mul(FOLD_PRIME)
}

/// Compute the digest of a tagged input.
pub fn hash_bytes(tag: u8, input: &Vec<u8>) -> (r: Vec<u8>)
    ensures
        r@ == crh(tag, input@),
        r@.len() == 32,
{
    let mut h: u64 = fold_step_exec(FOLD_SEED, tag);
    let mut i: usize = 0;
    proof {
        assert(input@.skip(0) =~= input@);
    }
    while i < input.len()
        invariant
            i <= input@.len(),
            fold_bytes(h, input@.skip(i as int)) == fold_bytes(
                fold_step(FOLD_SEED, tag),
                input@,
            ),
        decreases input@.len() - i,
    {
        proof {
            let s = input@.skip(i as int);
            assert(s[0] == input@[i as int]);
            assert(s.skip(1) =~= input@.skip(i as int + 1));
        }
        h = fold_step_exec(h, input[i]);
        i = i + 1;
    }
    proof {
        assert(input@.skip(i as int) =~= Seq::<u8>::empty());
    }
    let h1 = fold_step_exec(h, 1);
    let h2 = fold_step_exec(h1, 2);
    let h3 = fold_step_exec(h2, 3);
    let h4 = fold_step_exec(h3, 4);
    let b1 = u64_le_bytes(h1);
    let b2 = u64_le_bytes(h2);
    let b3 = u64_le_bytes(h3);
    let b4 = u64_le_bytes(h4);
    let r = crate::bytes::bytes_concat(
        &crate::bytes::bytes_concat(&b1, &b2),
        &crate::bytes::bytes_concat(&b3, &b4),
    );
    proof {
        assert(r@ =~= crh(tag, input@));
        lemma_crh_len(tag, input@);
    }
    r
}

} // verus!
