//! The field encoder: the deterministic mapping from domain byte values to
//! ordered sequences of scalar field elements.
//!
//! A field element is modelled by its canonical little-endian byte content, at
//! most [`ELEMENT_CAPACITY`] bytes per element. A byte value is encoded by
//! splitting it into capacity-sized chunks, in order; the encoding is pure and
//! total, so the same value always yields the same element sequence.

use vstd::prelude::*;
use crate::bytes::bytes_view;

verus! {

/// How many input bytes one field element carries.
pub const ELEMENT_CAPACITY: usize = 16;

/// The encoding of a byte value as a sequence of field elements: consecutive
/// chunks of at most [`ELEMENT_CAPACITY`] bytes.
pub open spec fn encode_bytes(s: Seq<u8>) -> Seq<Seq<u8>>
    decreases s.len(),
{
    if s.len() == 0 {
        Seq::empty()
    } else if s.len() <= ELEMENT_CAPACITY {
        seq![s]
    } else {
        seq![s.take(ELEMENT_CAPACITY as int)] + encode_bytes(s.skip(ELEMENT_CAPACITY as int))
    }
}

/// Encoding the same value twice yields the same element sequence.
pub proof fn lemma_encode_deterministic(a: Seq<u8>, b: Seq<u8>)
    requires
        a == b,
    ensures
        encode_bytes(a) == encode_bytes(b),
{
}

/// A 32-byte digest encodes to exactly two elements: its two 16-byte halves.
pub proof fn lemma_encode_digest(s: Seq<u8>)
    requires
        s.len() == 32,
    ensures
        encode_bytes(s) == seq![s.take(16), s.skip(16)],
{
    assert(encode_bytes(s.skip(16)) =~= seq![s.skip(16)]);
    assert(encode_bytes(s) =~= seq![s.take(16), s.skip(16)]);
}

/// The encoder is injective on values of equal length: two values of the same
/// length with equal encodings are equal.
pub proof fn lemma_encode_injective(a: Seq<u8>, b: Seq<u8>)
    requires
        a.len() == b.len(),
        encode_bytes(a) == encode_bytes(b),
    ensures
        a == b,
    decreases a.len(),
{
    if a.len() == 0 {
        assert(a =~= b);
    } else if a.len() <= ELEMENT_CAPACITY {
        assert(encode_bytes(a)[0] == a);
        assert(encode_bytes(b)[0] == b);
    } else {
        assert(encode_bytes(a)[0] == a.take(ELEMENT_CAPACITY as int));
        assert(encode_bytes(b)[0] == b.take(ELEMENT_CAPACITY as int));
        assert(encode_bytes(a).skip(1) =~= encode_bytes(a.skip(ELEMENT_CAPACITY as int)));
        assert(encode_bytes(b).skip(1) =~= encode_bytes(b.skip(ELEMENT_CAPACITY as int)));
        lemma_encode_injective(a.skip(ELEMENT_CAPACITY as int), b.skip(ELEMENT_CAPACITY as int));
        assert(a =~= a.take(ELEMENT_CAPACITY as int) + a.skip(ELEMENT_CAPACITY as int));
        assert(b =~= b.take(ELEMENT_CAPACITY as int) + b.skip(ELEMENT_CAPACITY as int));
    }
}

/// Compute the field-element encoding of a byte value.
pub fn to_field_elements(v: &Vec<u8>) -> (r: Vec<Vec<u8>>)
    ensures
        bytes_view(r@) == encode_bytes(v@),
{
    let mut r: Vec<Vec<u8>> = Vec::new();
    let mut i: usize = 0;
    proof {
        assert(v@.skip(0) =~= v@);
        assert(bytes_view(r@) + encode_bytes(v@) =~= encode_bytes(v@));
    }
    while i < v.len()
        invariant
            i <= v@.len(),
            encode_bytes(v@) == bytes_view(r@) + encode_bytes(v@.skip(i as int)),
        decreases v@.len() - i,
    {
        let mut chunk: Vec<u8> = Vec::new();
        let mut j: usize = i;
        let end: usize = if v.len() - i < ELEMENT_CAPACITY {
            v.len()
        } else {
            i + ELEMENT_CAPACITY
        };
        while j < end
            invariant
                i <= j <= end <= v@.len(),
                chunk@ == v@.subrange(i as int, j as int),
            decreases end - j,
        {
            chunk.push(v[j]);
            j = j + 1;
            proof {
                assert(chunk@ =~= v@.subrange(i as int, j as int));
            }
        }
        proof {
            let rest = v@.skip(i as int);
            if rest.len() <= ELEMENT_CAPACITY {
                assert(chunk@ =~= rest);
                assert(encode_bytes(rest) == seq![rest]);
                assert(bytes_view(r@.push(chunk)) =~= bytes_view(r@) + seq![chunk@]);
                assert(v@.skip(end as int) =~= Seq::<u8>::empty());
                assert(encode_bytes(v@) =~= bytes_view(r@.push(chunk)) + encode_bytes(
                    v@.skip(end as int),
                ));
            } else {
                assert(chunk@ =~= rest.take(ELEMENT_CAPACITY as int));
                assert(rest.skip(ELEMENT_CAPACITY as int) =~= v@.skip(i as int + ELEMENT_CAPACITY as int));
                assert(bytes_view(r@.push(chunk)) =~= bytes_view(r@) + seq![chunk@]);
                assert(encode_bytes(v@) =~= bytes_view(r@.push(chunk)) + encode_bytes(
                    v@.skip(i as int + ELEMENT_CAPACITY as int),
                ));
            }
        }
        r.push(chunk);
        i = end;
    }
    proof {
        assert(v@.skip(i as int) =~= Seq::<u8>::empty());
        assert(bytes_view(r@) =~= encode_bytes(v@));
    }
    r
}

} // verus!
