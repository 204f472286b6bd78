//! The binding laws of the outer statement.
//!
//! Each law states, over the specification of the synthesis condition, that
//! tampering with one part of an accepted statement makes the outer circuit
//! unsatisfiable: reordering the record lists, splitting the two local-data-
//! root allocations, swapping one record's verifying key under an unchanged
//! program commitment, or flipping the inner circuit identifier.

use vstd::prelude::*;
use crate::bytes::le_bytes;
use crate::crh::{crh, TAG_INNER_CIRCUIT_ID};
use crate::encode::{encode_bytes, lemma_encode_digest, lemma_encode_injective};
use crate::merkle::{
    leaf_hash, lemma_path_recomputes_root, lemma_path_root_len, path_bits, path_root,
    path_siblings,
};
use crate::outer_circuit::{
    claimed_program_id, inner_snark_input_spec, num_total_records, outer_checks_hold,
    pairs_encoding, program_ids_concat, serials_encoding, value_balance_repr,
    OuterPrivateVariablesView, OuterPublicVariablesView,
};
use crate::program::ExecutionView;
use crate::registry::{ids_of, padded_leaves, program_id_spec, TREE_CAPACITY};
use crate::snark::{lemma_commitment_binding};

verus! {

/// All members of a list are 32-byte digests.
pub open spec fn all_digests(s: Seq<Seq<u8>>) -> bool {
    forall|k: int| 0 <= k < s.len() ==> (#[trigger] s[k]).len() == 32
}

/// The membership path of any inserted identifier recomputes the program
/// identifier from that identifier's leaf hash.
pub proof fn lemma_membership_path_recomputes_program_id(keys: Seq<Seq<u8>>, j: int)
    requires
        keys.len() <= TREE_CAPACITY,
        0 <= j < keys.len(),
    ensures
        path_root(
            leaf_hash(ids_of(keys)[j]),
            path_siblings(padded_leaves(ids_of(keys)), j),
            path_bits(padded_leaves(ids_of(keys)).len(), j),
        ) == program_id_spec(ids_of(keys)),
{
    crate::registry::lemma_capacity_pow2();
    let leaves = padded_leaves(ids_of(keys));
    lemma_path_recomputes_root(leaves, j);
    assert(leaves[j] == leaf_hash(ids_of(keys)[j]));
}

/// The encoding of a list of serial numbers is `2 n` elements long.
proof fn lemma_serials_encoding_len(serial_numbers: Seq<Seq<u8>>, n: int)
    requires
        0 <= n <= serial_numbers.len(),
        all_digests(serial_numbers),
    ensures
        serials_encoding(serial_numbers, n).len() == 2 * n,
    decreases n,
{
    if n > 0 {
        lemma_serials_encoding_len(serial_numbers, n - 1);
        lemma_encode_digest(serial_numbers[n - 1]);
    }
}

/// The encoding of the commitment pairs is `4 n` elements long.
proof fn lemma_pairs_encoding_len(
    commitments: Seq<Seq<u8>>,
    encrypted_record_hashes: Seq<Seq<u8>>,
    n: int,
)
    requires
        0 <= n <= commitments.len(),
        n <= encrypted_record_hashes.len(),
        all_digests(commitments),
        all_digests(encrypted_record_hashes),
    ensures
        pairs_encoding(commitments, encrypted_record_hashes, n).len() == 4 * n,
    decreases n,
{
    if n > 0 {
        lemma_pairs_encoding_len(commitments, encrypted_record_hashes, n - 1);
        lemma_encode_digest(commitments[n - 1]);
        lemma_encode_digest(encrypted_record_hashes[n - 1]);
    }
}

/// Equal serial-number encodings come from equal serial-number lists.
proof fn lemma_serials_encoding_injective(s1: Seq<Seq<u8>>, s2: Seq<Seq<u8>>, n: int)
    requires
        0 <= n <= s1.len(),
        n <= s2.len(),
        all_digests(s1),
        all_digests(s2),
        serials_encoding(s1, n) == serials_encoding(s2, n),
    ensures
        forall|k: int| 0 <= k < n ==> s1[k] == s2[k],
    decreases n,
{
    if n > 0 {
        let e1 = serials_encoding(s1, n - 1);
        let e2 = serials_encoding(s2, n - 1);
        let b1 = encode_bytes(s1[n - 1]);
        let b2 = encode_bytes(s2[n - 1]);
        lemma_serials_encoding_len(s1, n - 1);
        lemma_serials_encoding_len(s2, n - 1);
        lemma_encode_digest(s1[n - 1]);
        lemma_encode_digest(s2[n - 1]);
        assert(e1 =~= (e1 + b1).take(2 * n - 2));
        assert(e2 =~= (e2 + b2).take(2 * n - 2));
        assert(b1 =~= (e1 + b1).skip(2 * n - 2));
        assert(b2 =~= (e2 + b2).skip(2 * n - 2));
        lemma_encode_injective(s1[n - 1], s2[n - 1]);
        lemma_serials_encoding_injective(s1, s2, n - 1);
    }
}

/// Equal pair encodings come from equal commitment and hash lists.
proof fn lemma_pairs_encoding_injective(
    c1: Seq<Seq<u8>>,
    h1: Seq<Seq<u8>>,
    c2: Seq<Seq<u8>>,
    h2: Seq<Seq<u8>>,
    n: int,
)
    requires
        0 <= n <= c1.len() && n <= h1.len() && n <= c2.len() && n <= h2.len(),
        all_digests(c1),
        all_digests(h1),
        all_digests(c2),
        all_digests(h2),
        pairs_encoding(c1, h1, n) == pairs_encoding(c2, h2, n),
    ensures
        forall|k: int| 0 <= k < n ==> c1[k] == c2[k] && h1[k] == h2[k],
    decreases n,
{
    if n > 0 {
        let e1 = pairs_encoding(c1, h1, n - 1);
        let e2 = pairs_encoding(c2, h2, n - 1);
        let bc1 = encode_bytes(c1[n - 1]);
        let bh1 = encode_bytes(h1[n - 1]);
        let bc2 = encode_bytes(c2[n - 1]);
        let bh2 = encode_bytes(h2[n - 1]);
        lemma_pairs_encoding_len(c1, h1, n - 1);
        lemma_pairs_encoding_len(c2, h2, n - 1);
        lemma_encode_digest(c1[n - 1]);
        lemma_encode_digest(h1[n - 1]);
        lemma_encode_digest(c2[n - 1]);
        lemma_encode_digest(h2[n - 1]);
        let t1 = e1 + bc1 + bh1;
        let t2 = e2 + bc2 + bh2;
        assert(e1 =~= t1.take(4 * n - 4));
        assert(e2 =~= t2.take(4 * n - 4));
        assert(bc1 =~= t1.subrange(4 * n - 4, 4 * n - 2));
        assert(bc2 =~= t2.subrange(4 * n - 4, 4 * n - 2));
        assert(bh1 =~= t1.subrange(4 * n - 2, 4 * n));
        assert(bh2 =~= t2.subrange(4 * n - 2, 4 * n));
        lemma_encode_injective(c1[n - 1], c2[n - 1]);
        lemma_encode_injective(h1[n - 1], h2[n - 1]);
        lemma_pairs_encoding_injective(c1, h1, c2, h2, n - 1);
    }
}

/// Shape agreement of two outer public variables that differ at most in the
/// order of their record lists.
pub open spec fn same_except_record_lists(
    p1: OuterPublicVariablesView,
    p2: OuterPublicVariablesView,
) -> bool {
    &&& p1.inner.ledger_digest == p2.inner.ledger_digest
    &&& p1.inner.ledger_digest.len() == 32
    &&& p1.inner.serial_numbers.len() == p2.inner.serial_numbers.len()
    &&& p1.inner.commitments.len() == p2.inner.commitments.len()
    &&& p1.inner.encrypted_record_hashes.len() == p1.inner.commitments.len()
    &&& p2.inner.encrypted_record_hashes.len() == p2.inner.commitments.len()
    &&& all_digests(p1.inner.serial_numbers)
    &&& all_digests(p2.inner.serial_numbers)
    &&& all_digests(p1.inner.commitments)
    &&& all_digests(p2.inner.commitments)
    &&& all_digests(p1.inner.encrypted_record_hashes)
    &&& all_digests(p2.inner.encrypted_record_hashes)
    &&& p1.inner.memo == p2.inner.memo
    &&& p1.inner.network_id == p2.inner.network_id
    &&& p1.inner.value_balance == p2.inner.value_balance
}

/// The merged inner input binds the ordered record lists: two inputs that
/// agree element for element carry the same serial numbers, commitments and
/// encrypted-record hashes, in the same order.
pub proof fn lemma_merged_input_binds_record_lists(
    p1: OuterPublicVariablesView,
    p2: OuterPublicVariablesView,
    private: OuterPrivateVariablesView,
)
    requires
        same_except_record_lists(p1, p2),
        inner_snark_input_spec(p1, private) == inner_snark_input_spec(p2, private),
    ensures
        forall|k: int|
            0 <= k < p1.inner.serial_numbers.len() ==> p1.inner.serial_numbers[k]
                == p2.inner.serial_numbers[k],
        forall|k: int|
            0 <= k < p1.inner.commitments.len() ==> p1.inner.commitments[k]
                == p2.inner.commitments[k] && p1.inner.encrypted_record_hashes[k]
                == p2.inner.encrypted_record_hashes[k],
{
    let n = p1.inner.serial_numbers.len() as int;
    let m = p1.inner.commitments.len() as int;
    let el = encode_bytes(p1.inner.ledger_digest);
    let s1 = serials_encoding(p1.inner.serial_numbers, n);
    let s2 = serials_encoding(p2.inner.serial_numbers, n);
    let q1 = pairs_encoding(p1.inner.commitments, p1.inner.encrypted_record_hashes, m);
    let q2 = pairs_encoding(p2.inner.commitments, p2.inner.encrypted_record_hashes, m);
    let tail1 = encode_bytes(private.program_commitment.tag) + encode_bytes(p1.inner.memo)
        + encode_bytes(seq![p1.inner.network_id]) + encode_bytes(private.local_data_root_inner)
        + encode_bytes(le_bytes(value_balance_repr(p1.inner.value_balance), 8));
    lemma_encode_digest(p1.inner.ledger_digest);
    lemma_serials_encoding_len(p1.inner.serial_numbers, n);
    lemma_serials_encoding_len(p2.inner.serial_numbers, n);
    lemma_pairs_encoding_len(p1.inner.commitments, p1.inner.encrypted_record_hashes, m);
    lemma_pairs_encoding_len(p2.inner.commitments, p2.inner.encrypted_record_hashes, m);
    let in1 = inner_snark_input_spec(p1, private);
    let in2 = inner_snark_input_spec(p2, private);
    assert(in1 =~= el + s1 + q1 + tail1);
    assert(in2 =~= el + s2 + q2 + tail1);
    assert(s1 =~= in1.subrange(2, 2 + 2 * n));
    assert(s2 =~= in2.subrange(2, 2 + 2 * n));
    assert(q1 =~= in1.subrange(2 + 2 * n, 2 + 2 * n + 4 * m));
    assert(q2 =~= in2.subrange(2 + 2 * n, 2 + 2 * n + 4 * m));
    lemma_serials_encoding_injective(p1.inner.serial_numbers, p2.inner.serial_numbers, n);
    lemma_pairs_encoding_injective(
        p1.inner.commitments,
        p1.inner.encrypted_record_hashes,
        p2.inner.commitments,
        p2.inner.encrypted_record_hashes,
        m,
    );
}

/// Ordering sensitivity: leaving the inner proof unchanged, any change to the
/// declared order of the serial numbers or of the commitment pairs — any
/// difference in some slot — changes the recomputed merged input, so the
/// outer circuit becomes unsatisfiable.
pub proof fn lemma_record_order_binds(
    p1: OuterPublicVariablesView,
    p2: OuterPublicVariablesView,
    private: OuterPrivateVariablesView,
    j: int,
)
    requires
        same_except_record_lists(p1, p2),
        p1.inner_circuit_id == p2.inner_circuit_id,
        0 <= j,
        j < p1.inner.serial_numbers.len() && p1.inner.serial_numbers[j]
            != p2.inner.serial_numbers[j] || j < p1.inner.commitments.len() && (
        p1.inner.commitments[j] != p2.inner.commitments[j]
            || p1.inner.encrypted_record_hashes[j] != p2.inner.encrypted_record_hashes[j]),
        outer_checks_hold(p1, private),
    ensures
        !outer_checks_hold(p2, private),
{
    if outer_checks_hold(p2, private) {
        assert(private.inner_snark_proof.input == inner_snark_input_spec(p1, private));
        assert(private.inner_snark_proof.input == inner_snark_input_spec(p2, private));
        lemma_merged_input_binds_record_lists(p1, p2, private);
    }
}

/// Cross-domain equality: two different local-data-root values for the
/// inner-domain and program-domain allocations make the circuit
/// unsatisfiable, whatever the rest of the witness holds.
pub proof fn lemma_cross_domain_equality_binds(
    public: OuterPublicVariablesView,
    private: OuterPrivateVariablesView,
)
    requires
        private.local_data_root_inner.len() == private.local_data_root_program.len(),
        private.local_data_root_inner != private.local_data_root_program,
    ensures
        !outer_checks_hold(public, private),
{
    if outer_checks_hold(public, private) {
        lemma_encode_injective(private.local_data_root_inner, private.local_data_root_program);
    }
}

/// The concatenated candidate program identifiers bind each record's
/// identifier: equal concatenations carry equal identifiers, slot for slot.
proof fn lemma_program_ids_concat_injective(
    p1: Seq<ExecutionView>,
    p2: Seq<ExecutionView>,
    n: int,
)
    requires
        0 <= n <= p1.len(),
        n <= p2.len(),
        program_ids_concat(p1, n) == program_ids_concat(p2, n),
    ensures
        forall|k: int| 0 <= k < n ==> claimed_program_id(p1[k]) == claimed_program_id(p2[k]),
    decreases n,
{
    if n > 0 {
        let e1 = program_ids_concat(p1, n - 1);
        let e2 = program_ids_concat(p2, n - 1);
        let b1 = claimed_program_id(p1[n - 1]);
        let b2 = claimed_program_id(p2[n - 1]);
        lemma_program_ids_concat_len(p1, n - 1);
        lemma_program_ids_concat_len(p2, n - 1);
        crate::crh::lemma_crh_len(crate::crh::TAG_LEAF, crate::registry::circuit_id_spec(p1[n - 1].verifying_key));
        crate::crh::lemma_crh_len(crate::crh::TAG_LEAF, crate::registry::circuit_id_spec(p2[n - 1].verifying_key));
        lemma_path_root_len(
            leaf_hash(crate::registry::circuit_id_spec(p1[n - 1].verifying_key)),
            p1[n - 1].program_path.siblings,
            p1[n - 1].program_path.bits,
        );
        lemma_path_root_len(
            leaf_hash(crate::registry::circuit_id_spec(p2[n - 1].verifying_key)),
            p2[n - 1].program_path.siblings,
            p2[n - 1].program_path.bits,
        );
        assert(e1 =~= (e1 + b1).take(32 * n - 32));
        assert(e2 =~= (e2 + b2).take(32 * n - 32));
        assert(b1 =~= (e1 + b1).skip(32 * n - 32));
        assert(b2 =~= (e2 + b2).skip(32 * n - 32));
        lemma_program_ids_concat_injective(p1, p2, n - 1);
    }
}

/// The concatenation of the first `n` candidate program identifiers is
/// `32 n` bytes long.
proof fn lemma_program_ids_concat_len(proofs: Seq<ExecutionView>, n: int)
    requires
        0 <= n <= proofs.len(),
    ensures
        program_ids_concat(proofs, n).len() == 32 * n,
    decreases n,
{
    if n > 0 {
        lemma_program_ids_concat_len(proofs, n - 1);
        crate::crh::lemma_crh_len(
            crate::crh::TAG_LEAF,
            crate::registry::circuit_id_spec(proofs[n - 1].verifying_key),
        );
        lemma_path_root_len(
            leaf_hash(crate::registry::circuit_id_spec(proofs[n - 1].verifying_key)),
            proofs[n - 1].program_path.siblings,
            proofs[n - 1].program_path.bits,
        );
    }
}

/// Commitment binding: changing one record's claimed verifying key so that
/// its derived candidate program identifier changes, while keeping the
/// declared program commitment and its randomness, makes the circuit
/// unsatisfiable.
pub proof fn lemma_program_commitment_binds(
    public: OuterPublicVariablesView,
    private1: OuterPrivateVariablesView,
    private2: OuterPrivateVariablesView,
    j: int,
)
    requires
        0 <= j < num_total_records(public.inner),
        num_total_records(public.inner) <= private1.program_proofs.len(),
        num_total_records(public.inner) <= private2.program_proofs.len(),
        claimed_program_id(private1.program_proofs[j]) != claimed_program_id(
            private2.program_proofs[j],
        ),
        private2.program_randomness == private1.program_randomness,
        private2.program_commitment == private1.program_commitment,
        outer_checks_hold(public, private1),
    ensures
        !outer_checks_hold(public, private2),
{
    if outer_checks_hold(public, private2) {
        let n = num_total_records(public.inner);
        let m1 = program_ids_concat(private1.program_proofs, n);
        let m2 = program_ids_concat(private2.program_proofs, n);
        lemma_commitment_binding(
            m1,
            private1.program_randomness,
            m2,
            private2.program_randomness,
        );
        lemma_program_ids_concat_injective(
            private1.program_proofs,
            private2.program_proofs,
            n,
        );
    }
}

/// Inner circuit identity binding: flipping the inner circuit identifier
/// bound as a public input, leaving everything else unchanged, makes the
/// circuit unsatisfiable.
pub proof fn lemma_inner_circuit_id_binds(
    p1: OuterPublicVariablesView,
    p2: OuterPublicVariablesView,
    private: OuterPrivateVariablesView,
)
    requires
        p1.inner == p2.inner,
        p1.inner_circuit_id != p2.inner_circuit_id,
        outer_checks_hold(p1, private),
    ensures
        !outer_checks_hold(p2, private),
{
    assert(crh(TAG_INNER_CIRCUIT_ID, private.inner_snark_vk) == p1.inner_circuit_id);
}

} // verus!
