//! Byte-sequence helpers shared by the hash, the encoder and the circuits.

use vstd::prelude::*;

verus! {

/// The view of a vector of byte strings, one sequence level deep on each side.
pub open spec fn bytes_view(v: Seq<Vec<u8>>) -> Seq<Seq<u8>> {
    v.map_values(|x: Vec<u8>| x@)
}

/// Little-endian bytes of a number, `n` bytes long.
pub open spec fn le_bytes(x: nat, n: nat) -> Seq<u8>
    decreases n,
{
    if n == 0 {
        Seq::empty()
    } else {
        seq![(x % 256) as u8] + le_bytes(x / 256, (n - 1) as nat)
    }
}

pub proof fn lemma_le_bytes_len(x: nat, n: nat)
    ensures
        le_bytes(x, n).len() == n,
    decreases n,
{
    if n > 0 {
        lemma_le_bytes_len(x / 256, (n - 1) as nat);
    }
}

/// The eight little-endian bytes of a 64-bit number.
pub fn u64_le_bytes(x: u64) -> (r: Vec<u8>)
    ensures
        r@ == le_bytes(x as nat, 8),
        r@.len() == 8,
{
    let mut r: Vec<u8> = Vec::new();
    let mut cur: u64 = x;
    let mut i: usize = 0;
    proof {
        lemma_le_bytes_len(x as nat, 8);
    }
    while i < 8
        invariant
            i <= 8,
            r@.len() == i,
            le_bytes(x as nat, 8) == r@ + le_bytes(cur as nat, (8 - i) as nat),
        decreases 8 - i,
    {
        proof {
            assert(le_bytes(cur as nat, (8 - i) as nat) == seq![(cur as nat % 256) as u8]
                + le_bytes(cur as nat / 256, (8 - (i + 1)) as nat));
        }
        r.push((cur % 256) as u8);
        cur = cur / 256;
        i = i + 1;
        proof {
            assert(le_bytes(x as nat, 8) =~= r@ + le_bytes(cur as nat, (8 - i) as nat));
        }
    }
    proof {
        assert(le_bytes(x as nat, 8) =~= r@);
    }
    r
}

/// Equality of two byte strings.
pub fn bytes_eq(a: &Vec<u8>, b: &Vec<u8>) -> (r: bool)
    ensures
        r == (a@ == b@),
{
    if a.len() != b.len() {
        return false;
    }
    let mut i: usize = 0;
    while i < a.len()
        invariant
            i <= a@.len(),
            a@.len() == b@.len(),
            forall|k: int| 0 <= k < i ==> a@[k] == b@[k],
        decreases a@.len() - i,
    {
        if a[i] != b[i] {
            return false;
        }
        i = i + 1;
    }
    proof {
        assert(a@ =~= b@);
    }
    true
}

/// Equality of two lists of byte strings.
pub fn bytes_seq_eq(a: &Vec<Vec<u8>>, b: &Vec<Vec<u8>>) -> (r: bool)
    ensures
        r == (bytes_view(a@) == bytes_view(b@)),
{
    if a.len() != b.len() {
        proof {
            assert(bytes_view(a@).len() != bytes_view(b@).len());
        }
        return false;
    }
    let mut i: usize = 0;
    while i < a.len()
        invariant
            i <= a@.len(),
            a@.len() == b@.len(),
            forall|k: int| 0 <= k < i ==> a@[k]@ == b@[k]@,
        decreases a@.len() - i,
    {
        if !bytes_eq(&a[i], &b[i]) {
            proof {
                assert(bytes_view(a@)[i as int] != bytes_view(b@)[i as int]);
            }
            return false;
        }
        i = i + 1;
    }
    proof {
        assert(bytes_view(a@) =~= bytes_view(b@));
    }
    true
}

/// Append copies of all elements of one list of byte strings to another.
pub fn append_elements(dst: &mut Vec<Vec<u8>>, src: &Vec<Vec<u8>>)
    ensures
        bytes_view(final(dst)@) == bytes_view(old(dst)@) + bytes_view(src@),
{
    let mut i: usize = 0;
    while i < src.len()
        invariant
            i <= src@.len(),
            dst@.len() == old(dst)@.len() + i,
            forall|k: int| 0 <= k < old(dst)@.len() ==> dst@[k]@ == old(dst)@[k]@,
            forall|k: int| 0 <= k < i ==> dst@[old(dst)@.len() + k]@ == src@[k]@,
        decreases src@.len() - i,
    {
        dst.push(bytes_clone(&src[i]));
        i = i + 1;
    }
    proof {
        assert(bytes_view(dst@) =~= bytes_view(old(dst)@) + bytes_view(src@));
    }
}

/// A fresh copy of a byte string.
pub fn bytes_clone(a: &Vec<u8>) -> (r: Vec<u8>)
    ensures
        r@ == a@,
{
    let mut r: Vec<u8> = Vec::new();
    let mut i: usize = 0;
    while i < a.len()
        invariant
            i <= a@.len(),
            r@ == a@.take(i as int),
        decreases a@.len() - i,
    {
        r.push(a[i]);
        i = i + 1;
        proof {
            assert(r@ =~= a@.take(i as int));
        }
    }
    proof {
        assert(r@ =~= a@);
    }
    r
}

/// Concatenation of two byte strings.
pub fn bytes_concat(a: &Vec<u8>, b: &Vec<u8>) -> (r: Vec<u8>)
    ensures
        r@ == a@ + b@,
{
    let mut r: Vec<u8> = Vec::new();
    let mut i: usize = 0;
    while i < a.len()
        invariant
            i <= a@.len(),
            r@ == a@.take(i as int),
        decreases a@.len() - i,
    {
        r.push(a[i]);
        i = i + 1;
        proof {
            assert(r@ =~= a@.take(i as int));
        }
    }
    proof {
        assert(r@ =~= a@);
    }
    let mut j: usize = 0;
    while j < b.len()
        invariant
            j <= b@.len(),
            r@ == a@ + b@.take(j as int),
        decreases b@.len() - j,
    {
        r.push(b[j]);
        j = j + 1;
        proof {
            assert(r@ =~= a@ + b@.take(j as int));
        }
    }
    proof {
        assert(r@ =~= a@ + b@);
    }
    r
}

} // verus!
