//! The outer constraint-synthesis routine: recursive verification of the
//! inner proof, per-record program membership and proof verification, and the
//! binding equalities.
//!
//! The populated system is satisfiable exactly when, simultaneously: the
//! bit-level encodings of the two local-data-root allocations agree across
//! proof domains; the inner proof verifies against the merged encoding of the
//! public values in the protocol's fixed order; every record's program proof
//! verifies against its slot position merged with the program-domain local
//! data root; the commitment recomputed over the concatenated per-record
//! candidate program identifiers with the witness randomness equals the
//! declared program commitment; and the digest of the inner verifying key
//! equals the inner circuit identifier bound as a public input.

use vstd::prelude::*;
use itertools::Itertools;
use crate::bytes::{
    append_elements, bytes_concat, bytes_view, le_bytes, u64_le_bytes,
};
use crate::crh::{crh, hash_bytes, TAG_CIRCUIT_ID, TAG_INNER_CIRCUIT_ID};
use crate::encode::{encode_bytes, to_field_elements};
use crate::merkle::{leaf_hash, path_root};
use crate::program::{Execution, ExecutionView};
use crate::r1cs::{ConstraintAccumulator, SynthesisError};
use crate::registry::circuit_id_spec;
use crate::snark::{
    commit_spec, snark_verifies, Commitment, CommitmentView, Proof, ProofView, VerifyingKey,
};

verus! {

/// Public variables of the inner statement, as carried by a transaction.
///
/// The program commitment and the local data root are deliberately absent:
/// in the outer statement they are re-derived as witnesses and checked
/// internally, never bound as public inputs.
pub struct InnerPublicVariables {
    /// The ledger digest the transaction was built against.
    pub ledger_digest: Vec<u8>,
    /// The serial numbers of the spent records, in declared order.
    pub serial_numbers: Vec<Vec<u8>>,
    /// The commitments of the created records, in declared order.
    pub commitments: Vec<Vec<u8>>,
    /// The encrypted-record hash of each created record, pairing the
    /// commitment of the same index.
    pub encrypted_record_hashes: Vec<Vec<u8>>,
    /// The transaction memo.
    pub memo: Vec<u8>,
    /// The network identifier.
    pub network_id: u8,
    /// The value balance of the transaction.
    pub value_balance: i64,
}

/// The mathematical content of the inner public variables.
pub struct InnerPublicVariablesView {
    /// The ledger digest.
    pub ledger_digest: Seq<u8>,
    /// The serial numbers, in order.
    pub serial_numbers: Seq<Seq<u8>>,
    /// The record commitments, in order.
    pub commitments: Seq<Seq<u8>>,
    /// The encrypted-record hashes, in order.
    pub encrypted_record_hashes: Seq<Seq<u8>>,
    /// The memo.
    pub memo: Seq<u8>,
    /// The network identifier.
    pub network_id: u8,
    /// The value balance.
    pub value_balance: i64,
}

impl View for InnerPublicVariables {
    type V = InnerPublicVariablesView;

    open spec fn view(&self) -> InnerPublicVariablesView {
        InnerPublicVariablesView {
            ledger_digest: self.ledger_digest@,
            serial_numbers: bytes_view(self.serial_numbers@),
            commitments: bytes_view(self.commitments@),
            encrypted_record_hashes: bytes_view(self.encrypted_record_hashes@),
            memo: self.memo@,
            network_id: self.network_id,
            value_balance: self.value_balance,
        }
    }
}

/// Public variables of the outer statement.
pub struct OuterPublicVariables {
    /// The inner statement's public variables.
    pub inner_public_variables: InnerPublicVariables,
    /// The inner circuit identifier, bound as a public input.
    pub inner_circuit_id: Vec<u8>,
}

/// The mathematical content of the outer public variables.
pub struct OuterPublicVariablesView {
    /// The inner statement's public variables.
    pub inner: InnerPublicVariablesView,
    /// The inner circuit identifier.
    pub inner_circuit_id: Seq<u8>,
}

impl View for OuterPublicVariables {
    type V = OuterPublicVariablesView;

    open spec fn view(&self) -> OuterPublicVariablesView {
        OuterPublicVariablesView {
            inner: self.inner_public_variables@,
            inner_circuit_id: self.inner_circuit_id@,
        }
    }
}

impl OuterPublicVariables {
    /// Shape well-formedness: each commitment pairs one encrypted-record
    /// hash, and the record counts fit the machine.
    pub open spec fn wf(&self) -> bool {
        &&& self@.inner.commitments.len() == self@.inner.encrypted_record_hashes.len()
        &&& self@.inner.serial_numbers.len() + self@.inner.commitments.len() <= usize::MAX
    }
}

/// Private variables of the outer statement, known only to the prover.
///
/// The local data root is allocated twice, once per proof domain, because the
/// two proof systems may operate over different algebraic structures; the
/// circuit enforces the two allocations bit-equal.
pub struct OuterPrivateVariables {
    /// The verifying key of the inner circuit.
    pub inner_snark_vk: VerifyingKey,
    /// The inner proof.
    pub inner_snark_proof: Proof,
    /// One execution bundle per record slot, in slot order.
    pub program_proofs: Vec<Execution>,
    /// The declared program commitment.
    pub program_commitment: Commitment,
    /// The randomness the program commitment was formed with.
    pub program_randomness: Vec<u8>,
    /// The local data root, in the inner proof system's domain.
    pub local_data_root_inner: Vec<u8>,
    /// The local data root, in the program proof system's domain.
    pub local_data_root_program: Vec<u8>,
}

/// The mathematical content of the outer private variables.
pub struct OuterPrivateVariablesView {
    /// Canonical encoding of the inner verifying key.
    pub inner_snark_vk: Seq<u8>,
    /// The statement the inner proof attests.
    pub inner_snark_proof: ProofView,
    /// The per-record execution bundles.
    pub program_proofs: Seq<ExecutionView>,
    /// The declared program commitment.
    pub program_commitment: CommitmentView,
    /// The commitment randomness.
    pub program_randomness: Seq<u8>,
    /// The inner-domain local data root.
    pub local_data_root_inner: Seq<u8>,
    /// The program-domain local data root.
    pub local_data_root_program: Seq<u8>,
}

impl View for OuterPrivateVariables {
    type V = OuterPrivateVariablesView;

    open spec fn view(&self) -> OuterPrivateVariablesView {
        OuterPrivateVariablesView {
            inner_snark_vk: self.inner_snark_vk@,
            inner_snark_proof: self.inner_snark_proof@,
            program_proofs: self.program_proofs@.map_values(|e: Execution| e@),
            program_commitment: self.program_commitment@,
            program_randomness: self.program_randomness@,
            local_data_root_inner: self.local_data_root_inner@,
            local_data_root_program: self.local_data_root_program@,
        }
    }
}

impl OuterPrivateVariables {
    /// Shape well-formedness: every membership path carries one position bit
    /// per sibling digest.
    pub open spec fn wf(&self) -> bool {
        forall|i: int|
            0 <= i < self@.program_proofs.len() ==> (#[trigger] self@.program_proofs[i]).program_path.bits.len()
                == self@.program_proofs[i].program_path.siblings.len()
    }
}

/// The fixed number of record slots of a transaction shape: its spent records
/// plus its created records.
pub open spec fn num_total_records(inner: InnerPublicVariablesView) -> int {
    inner.serial_numbers.len() + inner.commitments.len() as int
}

/// The unsigned 64-bit representative of a value balance, as its
/// little-endian bytes expose it.
pub open spec fn value_balance_repr(value_balance: i64) -> nat {
    if value_balance >= 0 {
        value_balance as nat
    } else {
        (value_balance + 0x1_0000_0000_0000_0000) as nat
    }
}

/// Compute the unsigned representative of a value balance.
pub fn value_balance_to_u64(value_balance: i64) -> (r: u64)
    ensures
        r as nat == value_balance_repr(value_balance),
{
    if value_balance >= 0 {
        value_balance as u64
    } else {
        let magnitude: i64 = -(value_balance + 1);
        u64::MAX - (magnitude as u64)
    }
}

/// The first `n` serial numbers, encoded in order.
pub open spec fn serials_encoding(serial_numbers: Seq<Seq<u8>>, n: int) -> Seq<Seq<u8>>
    decreases n,
{
    if n <= 0 {
        Seq::empty()
    } else {
        serials_encoding(serial_numbers, n - 1) + encode_bytes(serial_numbers[n - 1])
    }
}

/// The first `n` (commitment, encrypted-record hash) pairs, encoded in order,
/// the commitment of each pair first.
pub open spec fn pairs_encoding(
    commitments: Seq<Seq<u8>>,
    encrypted_record_hashes: Seq<Seq<u8>>,
    n: int,
) -> Seq<Seq<u8>>
    decreases n,
{
    if n <= 0 {
        Seq::empty()
    } else {
        pairs_encoding(commitments, encrypted_record_hashes, n - 1) + encode_bytes(
            commitments[n - 1],
        ) + encode_bytes(encrypted_record_hashes[n - 1])
    }
}

/// The merged input of the inner verification predicate, in the protocol's
/// fixed order. The program commitment and the inner-domain local data root
/// take part as witnesses even though they are never public-input slots.
pub open spec fn inner_snark_input_spec(
    public: OuterPublicVariablesView,
    private: OuterPrivateVariablesView,
) -> Seq<Seq<u8>> {
    encode_bytes(public.inner.ledger_digest) + serials_encoding(
        public.inner.serial_numbers,
        public.inner.serial_numbers.len() as int,
    ) + pairs_encoding(
        public.inner.commitments,
        public.inner.encrypted_record_hashes,
        public.inner.commitments.len() as int,
    ) + encode_bytes(private.program_commitment.tag) + encode_bytes(public.inner.memo)
        + encode_bytes(seq![public.inner.network_id]) + encode_bytes(
        private.local_data_root_inner,
    ) + encode_bytes(le_bytes(value_balance_repr(public.inner.value_balance), 8))
}

/// The public-input slots the synthesis allocates, in allocation order: each
/// element of each public value individually, then the inner circuit
/// identifier.
pub open spec fn outer_public_input_slots(public: OuterPublicVariablesView) -> Seq<Seq<u8>> {
    encode_bytes(public.inner.ledger_digest) + serials_encoding(
        public.inner.serial_numbers,
        public.inner.serial_numbers.len() as int,
    ) + pairs_encoding(
        public.inner.commitments,
        public.inner.encrypted_record_hashes,
        public.inner.commitments.len() as int,
    ) + encode_bytes(public.inner.memo) + encode_bytes(seq![public.inner.network_id])
        + encode_bytes(le_bytes(value_balance_repr(public.inner.value_balance), 8)) + seq![
        public.inner_circuit_id,
    ]
}

/// The candidate program identifier a record's bundle implies: the root
/// recomputed from the record's claimed verifying key along its claimed
/// membership path.
pub open spec fn claimed_program_id(e: ExecutionView) -> Seq<u8> {
    path_root(
        leaf_hash(circuit_id_spec(e.verifying_key)),
        e.program_path.siblings,
        e.program_path.bits,
    )
}

/// The concatenation of the first `n` candidate program identifiers, in slot
/// order: the message of the program commitment.
pub open spec fn program_ids_concat(proofs: Seq<ExecutionView>, n: int) -> Seq<u8>
    decreases n,
{
    if n <= 0 {
        Seq::empty()
    } else {
        program_ids_concat(proofs, n - 1) + claimed_program_id(proofs[n - 1])
    }
}

/// The per-record check: the record's program proof verifies against its slot
/// position merged with the program-domain local data root.
pub open spec fn record_check(e: ExecutionView, position: int, local_data_root: Seq<u8>) -> bool {
    snark_verifies(
        e.verifying_key,
        seq![le_bytes(position as nat, 8)] + encode_bytes(local_data_root),
        e.proof,
    )
}

/// The satisfiability condition of the outer circuit: all checks of the
/// synthesis hold simultaneously.
pub open spec fn outer_checks_hold(
    public: OuterPublicVariablesView,
    private: OuterPrivateVariablesView,
) -> bool {
    let n = num_total_records(public.inner);
    &&& encode_bytes(private.local_data_root_inner) == encode_bytes(
        private.local_data_root_program,
    )
    &&& snark_verifies(
        private.inner_snark_vk,
        inner_snark_input_spec(public, private),
        private.inner_snark_proof,
    )
    &&& forall|i: int|
        0 <= i < n ==> record_check(
            #[trigger] private.program_proofs[i],
            i,
            private.local_data_root_program,
        )
    &&& commit_spec(program_ids_concat(private.program_proofs, n), private.program_randomness)
        == private.program_commitment
    &&& crh(TAG_INNER_CIRCUIT_ID, private.inner_snark_vk) == public.inner_circuit_id
}

/// Relies on itertools::Itertools::zip_eq: pairs the two lists elementwise.
/// zip_eq panics when the lengths differ, so equal lengths are required.
#[verifier::external_body]
fn zip_digests(a: &Vec<Vec<u8>>, b: &Vec<Vec<u8>>) -> (r: Vec<(Vec<u8>, Vec<u8>)>)
    requires
        a@.len() == b@.len(),
    ensures
        r@.len() == a@.len(),
        forall|i: int| 0 <= i < r@.len() ==> r@[i].0@ == a@[i]@ && r@[i].1@ == b@[i]@,
{
    a.iter().cloned().zip_eq(b.iter().cloned()).collect()
}

/// Allocate a value's field elements one by one, each as a distinct
/// public-input slot of the inner verification predicate, and merge them.
fn alloc_inner_snark_input_field_element(
    cs: &mut ConstraintAccumulator,
    var: &Vec<u8>,
) -> (r: Vec<Vec<u8>>)
    ensures
        bytes_view(r@) == encode_bytes(var@),
        final(cs)@.satisfied == old(cs)@.satisfied,
        final(cs)@.public_inputs == old(cs)@.public_inputs + encode_bytes(var@),
{
    let elements = to_field_elements(var);
    let ghost sat0 = cs@.satisfied;
    let ghost pi0 = cs@.public_inputs;
    let mut i: usize = 0;
    proof {
        assert(pi0 + bytes_view(elements@).take(0) =~= pi0);
    }
    while i < elements.len()
        invariant
            i <= elements@.len(),
            bytes_view(elements@) == encode_bytes(var@),
            cs@.satisfied == sat0,
            cs@.public_inputs == pi0 + bytes_view(elements@).take(i as int),
        decreases elements@.len() - i,
    {
        cs.alloc_input_element(&elements[i]);
        i = i + 1;
        proof {
            assert(cs@.public_inputs =~= pi0 + bytes_view(elements@).take(i as int));
        }
    }
    proof {
        assert(bytes_view(elements@).take(i as int) =~= bytes_view(elements@));
    }
    elements
}

/// Allocate a value's field elements merged, as inner-domain witness data:
/// no public-input slot is created.
fn alloc_inner_snark_field_element(var: &Vec<u8>) -> (r: Vec<Vec<u8>>)
    ensures
        bytes_view(r@) == encode_bytes(var@),
{
    to_field_elements(var)
}

/// Allocate a value's field elements merged, as program-domain witness data:
/// no public-input slot is created.
fn alloc_program_snark_field_element(var: &Vec<u8>) -> (r: Vec<Vec<u8>>)
    ensures
        bytes_view(r@) == encode_bytes(var@),
{
    to_field_elements(var)
}

/// Populate the accumulator with the outer circuit. Aborts with the
/// allocation error exactly when a record slot lacks its execution bundle;
/// otherwise the populated system is satisfiable exactly when the
/// accumulator was satisfiable before and all outer checks hold, and the
/// public-input slots grow by the outer statement's slots in order.
pub fn execute_outer_circuit(
    cs: &mut ConstraintAccumulator,
    public: &OuterPublicVariables,
    private: &OuterPrivateVariables,
) -> (r: Result<(), SynthesisError>)
    requires
        public.wf(),
        private.wf(),
    ensures
        r is Ok <==> private@.program_proofs.len() >= num_total_records(public@.inner),
        r is Err ==> r == Err::<(), SynthesisError>(SynthesisError::AssignmentMissing)
            && final(cs)@ == old(cs)@,
        r is Ok ==> final(cs)@.satisfied == (old(cs)@.satisfied && outer_checks_hold(
            public@,
            private@,
        )),
        r is Ok ==> final(cs)@.public_inputs == old(cs)@.public_inputs
            + outer_public_input_slots(public@),
{
    let inner = &public.inner_public_variables;
    let num_total: usize = inner.serial_numbers.len() + inner.commitments.len();
    if private.program_proofs.len() < num_total {
        return Err(SynthesisError::AssignmentMissing);
    }

    let ghost sat0 = cs@.satisfied;
    let ghost pi0 = cs@.public_inputs;

    // Construct the inner circuit input: public values as input slots.
    let ledger_digest_fe = alloc_inner_snark_input_field_element(cs, &inner.ledger_digest);

    let ghost sns = public@.inner.serial_numbers;
    let mut serial_number_fe: Vec<Vec<u8>> = Vec::new();
    let mut i: usize = 0;
    proof {
        assert(bytes_view(serial_number_fe@) =~= serials_encoding(sns, 0));
        assert(cs@.public_inputs + serials_encoding(sns, 0) =~= cs@.public_inputs);
    }
    let ghost pi_serials = cs@.public_inputs;
    while i < public.inner_public_variables.serial_numbers.len()
        invariant
            i <= sns.len(),
            sns == public@.inner.serial_numbers,
            sns == bytes_view(public.inner_public_variables.serial_numbers@),
            cs@.satisfied == sat0,
            cs@.public_inputs == pi_serials + serials_encoding(sns, i as int),
            bytes_view(serial_number_fe@) == serials_encoding(sns, i as int),
        decreases sns.len() - i,
    {
        let fe = alloc_inner_snark_input_field_element(
            cs,
            &public.inner_public_variables.serial_numbers[i],
        );
        append_elements(&mut serial_number_fe, &fe);
        i = i + 1;
        proof {
            assert(serials_encoding(sns, i as int) == serials_encoding(sns, i as int - 1)
                + encode_bytes(sns[i as int - 1]));
            assert(cs@.public_inputs =~= pi_serials + serials_encoding(sns, i as int));
            assert(bytes_view(serial_number_fe@) =~= serials_encoding(sns, i as int));
        }
    }

    let ghost cms = public@.inner.commitments;
    let ghost erhs = public@.inner.encrypted_record_hashes;
    let pairs = zip_digests(&inner.commitments, &inner.encrypted_record_hashes);
    let mut commitment_and_encrypted_record_hash_fe: Vec<Vec<u8>> = Vec::new();
    let mut j: usize = 0;
    proof {
        assert(bytes_view(commitment_and_encrypted_record_hash_fe@) =~= pairs_encoding(
            cms,
            erhs,
            0,
        ));
        assert(cs@.public_inputs + pairs_encoding(cms, erhs, 0) =~= cs@.public_inputs);
    }
    let ghost pi_pairs = cs@.public_inputs;
    while j < pairs.len()
        invariant
            j <= pairs@.len(),
            pairs@.len() == cms.len(),
            forall|k: int| 0 <= k < pairs@.len() ==> pairs@[k].0@ == cms[k] && pairs@[k].1@
                == erhs[k],
            cms == public@.inner.commitments,
            erhs == public@.inner.encrypted_record_hashes,
            cs@.satisfied == sat0,
            cs@.public_inputs == pi_pairs + pairs_encoding(cms, erhs, j as int),
            bytes_view(commitment_and_encrypted_record_hash_fe@) == pairs_encoding(
                cms,
                erhs,
                j as int,
            ),
        decreases pairs@.len() - j,
    {
        let commitment_fe = alloc_inner_snark_input_field_element(cs, &pairs[j].0);
        let encrypted_record_hash_fe = alloc_inner_snark_input_field_element(cs, &pairs[j].1);
        append_elements(&mut commitment_and_encrypted_record_hash_fe, &commitment_fe);
        append_elements(&mut commitment_and_encrypted_record_hash_fe, &encrypted_record_hash_fe);
        j = j + 1;
        proof {
            assert(pairs_encoding(cms, erhs, j as int) == pairs_encoding(cms, erhs, j as int - 1)
                + encode_bytes(cms[j as int - 1]) + encode_bytes(erhs[j as int - 1]));
            assert(cs@.public_inputs =~= pi_pairs + pairs_encoding(cms, erhs, j as int));
            assert(bytes_view(commitment_and_encrypted_record_hash_fe@) =~= pairs_encoding(
                cms,
                erhs,
                j as int,
            ));
        }
    }

    let memo_fe = alloc_inner_snark_input_field_element(cs, &inner.memo);

    let mut network_id_bytes: Vec<u8> = Vec::new();
    network_id_bytes.push(inner.network_id);
    proof {
        assert(network_id_bytes@ =~= seq![public@.inner.network_id]);
    }
    let network_id_fe = alloc_inner_snark_input_field_element(cs, &network_id_bytes);

    let value_balance_bytes = u64_le_bytes(value_balance_to_u64(inner.value_balance));
    let value_balance_fe = alloc_inner_snark_input_field_element(cs, &value_balance_bytes);

    // Witness allocations: never public-input slots.
    let program_commitment_bytes = private.program_commitment.to_bytes();
    let program_commitment_fe = alloc_inner_snark_field_element(&program_commitment_bytes);

    let local_data_root_fe_inner_snark = alloc_inner_snark_field_element(
        &private.local_data_root_inner,
    );
    let local_data_root_fe_program_snark = alloc_program_snark_field_element(
        &private.local_data_root_program,
    );

    // Enforce the cross-domain bit equality of the two local-data-root
    // allocations.
    cs.enforce_equal_elements(&local_data_root_fe_inner_snark, &local_data_root_fe_program_snark);

    // Merge the encoded public values, in the protocol's fixed order.
    let mut inner_snark_input: Vec<Vec<u8>> = Vec::new();
    append_elements(&mut inner_snark_input, &ledger_digest_fe);
    append_elements(&mut inner_snark_input, &serial_number_fe);
    append_elements(&mut inner_snark_input, &commitment_and_encrypted_record_hash_fe);
    append_elements(&mut inner_snark_input, &program_commitment_fe);
    append_elements(&mut inner_snark_input, &memo_fe);
    append_elements(&mut inner_snark_input, &network_id_fe);
    append_elements(&mut inner_snark_input, &local_data_root_fe_inner_snark);
    append_elements(&mut inner_snark_input, &value_balance_fe);
    proof {
        assert(bytes_view(inner_snark_input@) =~= inner_snark_input_spec(public@, private@));
    }

    // Verify the inner circuit proof.
    cs.enforce_snark_verifies(&private.inner_snark_vk, &inner_snark_input, &private.inner_snark_proof);

    // Verify each record's circuit exists in the declared program and verify
    // its proof.
    let ghost sat_records = cs@.satisfied;
    let ghost pi_done = cs@.public_inputs;
    let ghost proofs = private@.program_proofs;
    let ghost ldr_program = private@.local_data_root_program;
    let mut program_ids_input: Vec<u8> = Vec::new();
    let mut index: usize = 0;
    proof {
        assert(program_ids_input@ =~= program_ids_concat(proofs, 0));
    }
    while index < num_total
        invariant
            index <= num_total,
            num_total == num_total_records(public@.inner),
            proofs == private@.program_proofs,
            proofs.len() >= num_total,
            private.wf(),
            ldr_program == private@.local_data_root_program,
            bytes_view(local_data_root_fe_program_snark@) == encode_bytes(ldr_program),
            cs@.public_inputs == pi_done,
            cs@.satisfied == (sat_records && forall|k: int|
                0 <= k < index ==> record_check(#[trigger] proofs[k], k, ldr_program)),
            program_ids_input@ == program_ids_concat(proofs, index as int),
        decreases num_total - index,
    {
        let input = &private.program_proofs[index];
        proof {
            assert(proofs[index as int] == input@);
        }

        // Recompute the candidate circuit identifier from the claimed
        // verifying key, and the candidate program identifier along the
        // claimed membership path.
        let claimed_circuit_id = hash_bytes(TAG_CIRCUIT_ID, &input.verifying_key.bytes);
        let claimed_program_id_bytes = input.program_path.calculate_root(&claimed_circuit_id);
        program_ids_input = bytes_concat(&program_ids_input, &claimed_program_id_bytes);

        // The record's slot position, as a single constant field element.
        let mut program_input: Vec<Vec<u8>> = Vec::new();
        program_input.push(u64_le_bytes(index as u64));
        append_elements(&mut program_input, &local_data_root_fe_program_snark);
        proof {
            assert(bytes_view(program_input@) =~= seq![le_bytes(index as nat, 8)] + encode_bytes(
                ldr_program,
            ));
        }

        cs.enforce_snark_verifies(&input.verifying_key, &program_input, &input.proof);
        let ghost sat_before = cs@.satisfied;
        index = index + 1;
        proof {
            assert(program_ids_concat(proofs, index as int) == program_ids_concat(
                proofs,
                index as int - 1,
            ) + claimed_program_id(proofs[index as int - 1]));
            assert(program_ids_input@ =~= program_ids_concat(proofs, index as int));
            assert(cs@.satisfied == (sat_records && forall|k: int|
                0 <= k < index ==> record_check(#[trigger] proofs[k], k, ldr_program))) by {
                if sat_records && forall|k: int|
                    0 <= k < index - 1 ==> record_check(#[trigger] proofs[k], k, ldr_program) {
                    if record_check(proofs[index as int - 1], index as int - 1, ldr_program) {
                        assert(forall|k: int|
                            0 <= k < index ==> record_check(#[trigger] proofs[k], k, ldr_program));
                    }
                }
            }
        }
    }

    // Check that the program commitment is derived correctly over the
    // concatenated candidate program identifiers.
    let candidate_commitment = Commitment::commit(&program_ids_input, &private.program_randomness);
    cs.enforce_equal_commitments(&candidate_commitment, &private.program_commitment);

    // Check that the inner circuit ID is derived correctly from the inner
    // verifying key, against the identifier bound as a public input.
    let candidate_inner_circuit_id = hash_bytes(
        TAG_INNER_CIRCUIT_ID,
        &private.inner_snark_vk.bytes,
    );
    cs.alloc_input_element(&public.inner_circuit_id);
    cs.enforce_equal_bytes(&candidate_inner_circuit_id, &public.inner_circuit_id);

    proof {
        assert(cs@.public_inputs =~= pi0 + outer_public_input_slots(public@));
        assert(cs@.satisfied == (sat0 && outer_checks_hold(public@, private@)));
    }
    Ok(())
}

/// Spent records of the fixed transaction shape.
pub const NUM_INPUT_RECORDS: usize = 2;

/// Created records of the fixed transaction shape.
pub const NUM_OUTPUT_RECORDS: usize = 2;

/// Record slots of the fixed transaction shape.
pub const NUM_TOTAL_RECORDS: usize = 4;

/// A sequence of `n` zero bytes.
pub open spec fn zero_bytes_spec(n: nat) -> Seq<u8> {
    Seq::new(n, |i: int| 0u8)
}

fn zero_bytes(n: usize) -> (r: Vec<u8>)
    ensures
        r@ == zero_bytes_spec(n as nat),
{
    let mut r: Vec<u8> = Vec::new();
    let mut i: usize = 0;
    while i < n
        invariant
            i <= n,
            r@.len() == i,
            forall|k: int| 0 <= k < i ==> r@[k] == 0u8,
        decreases n - i,
    {
        r.push(0u8);
        i = i + 1;
    }
    proof {
        assert(r@ =~= zero_bytes_spec(n as nat));
    }
    r
}

/// The blank inner public variables: all-zero values of the fixed shape.
pub open spec fn blank_inner_public_variables_spec() -> InnerPublicVariablesView {
    InnerPublicVariablesView {
        ledger_digest: zero_bytes_spec(32),
        serial_numbers: Seq::new(NUM_INPUT_RECORDS as nat, |i: int| zero_bytes_spec(32)),
        commitments: Seq::new(NUM_OUTPUT_RECORDS as nat, |i: int| zero_bytes_spec(32)),
        encrypted_record_hashes: Seq::new(NUM_OUTPUT_RECORDS as nat, |i: int| zero_bytes_spec(32)),
        memo: zero_bytes_spec(64),
        network_id: 0u8,
        value_balance: 0i64,
    }
}

impl OuterPublicVariables {
    /// The blank outer public variables: the all-zero values that fix the
    /// transaction shape for key generation.
    pub fn blank() -> (r: OuterPublicVariables)
        ensures
            r@.inner == blank_inner_public_variables_spec(),
            r@.inner_circuit_id == zero_bytes_spec(32),
            r.wf(),
    {
        let mut serial_numbers: Vec<Vec<u8>> = Vec::new();
        let mut commitments: Vec<Vec<u8>> = Vec::new();
        let mut encrypted_record_hashes: Vec<Vec<u8>> = Vec::new();
        let mut i: usize = 0;
        while i < NUM_INPUT_RECORDS
            invariant
                i <= NUM_INPUT_RECORDS,
                serial_numbers@.len() == i,
                forall|k: int| 0 <= k < i ==> serial_numbers@[k]@ == zero_bytes_spec(32),
            decreases NUM_INPUT_RECORDS - i,
        {
            serial_numbers.push(zero_bytes(32));
            i = i + 1;
        }
        let mut j: usize = 0;
        while j < NUM_OUTPUT_RECORDS
            invariant
                j <= NUM_OUTPUT_RECORDS,
                commitments@.len() == j,
                encrypted_record_hashes@.len() == j,
                forall|k: int| 0 <= k < j ==> commitments@[k]@ == zero_bytes_spec(32),
                forall|k: int| 0 <= k < j ==> encrypted_record_hashes@[k]@ == zero_bytes_spec(32),
            decreases NUM_OUTPUT_RECORDS - j,
        {
            commitments.push(zero_bytes(32));
            encrypted_record_hashes.push(zero_bytes(32));
            j = j + 1;
        }
        let r = OuterPublicVariables {
            inner_public_variables: InnerPublicVariables {
                ledger_digest: zero_bytes(32),
                serial_numbers,
                commitments,
                encrypted_record_hashes,
                memo: zero_bytes(64),
                network_id: 0,
                value_balance: 0,
            },
            inner_circuit_id: zero_bytes(32),
        };
        proof {
            assert(r@.inner.serial_numbers =~= blank_inner_public_variables_spec().serial_numbers);
            assert(r@.inner.commitments =~= blank_inner_public_variables_spec().commitments);
            assert(r@.inner.encrypted_record_hashes =~= blank_inner_public_variables_spec()
                .encrypted_record_hashes);
        }
        r
    }
}

impl OuterPrivateVariables {
    /// The blank outer private variables: the supplied inner key, inner proof
    /// and execution bundle, the bundle repeated across every record slot,
    /// with zero local data roots and an empty-message commitment.
    pub fn blank(
        inner_snark_vk: VerifyingKey,
        inner_snark_proof: Proof,
        execution: Execution,
    ) -> (r: OuterPrivateVariables)
        ensures
            r@.inner_snark_vk == inner_snark_vk@,
            r@.inner_snark_proof == inner_snark_proof@,
            r@.program_proofs.len() == NUM_TOTAL_RECORDS,
            forall|k: int| 0 <= k < NUM_TOTAL_RECORDS ==> r@.program_proofs[k] == execution@,
            r@.program_commitment == commit_spec(Seq::<u8>::empty(), Seq::<u8>::empty()),
            r@.program_randomness == Seq::<u8>::empty(),
            r@.local_data_root_inner == zero_bytes_spec(32),
            r@.local_data_root_program == zero_bytes_spec(32),
    {
        let mut program_proofs: Vec<Execution> = Vec::new();
        let mut i: usize = 0;
        while i < NUM_TOTAL_RECORDS
            invariant
                i <= NUM_TOTAL_RECORDS,
                program_proofs@.len() == i,
                forall|k: int| 0 <= k < i ==> program_proofs@[k]@ == execution@,
            decreases NUM_TOTAL_RECORDS - i,
        {
            program_proofs.push(execution.duplicate());
            i = i + 1;
        }
        let empty_message: Vec<u8> = Vec::new();
        let empty_randomness: Vec<u8> = Vec::new();
        let program_commitment = Commitment::commit(&empty_message, &empty_randomness);
        proof {
            assert(empty_message@ =~= Seq::<u8>::empty());
            assert(empty_randomness@ =~= Seq::<u8>::empty());
        }
        OuterPrivateVariables {
            inner_snark_vk,
            inner_snark_proof,
            program_proofs,
            program_commitment,
            program_randomness: Vec::new(),
            local_data_root_inner: zero_bytes(32),
            local_data_root_program: zero_bytes(32),
        }
    }
}

/// The outer circuit: the outer statement's public and private variables,
/// ready for constraint synthesis.
pub struct OuterCircuit {
    /// The public variables.
    pub public: OuterPublicVariables,
    /// The private variables.
    pub private: OuterPrivateVariables,
}

impl OuterCircuit {
    /// An outer circuit over the given variables.
    pub fn new(public: OuterPublicVariables, private: OuterPrivateVariables) -> (r: OuterCircuit)
        ensures
            r.public == public,
            r.private == private,
    {
        OuterCircuit { public, private }
    }

    /// A blank outer circuit: blank public variables, and blank private
    /// variables over the supplied inner key, inner proof and execution
    /// bundle. Used solely to fix the circuit's constraint shape for key
    /// generation; deterministic in its arguments.
    pub fn blank(
        inner_snark_vk: VerifyingKey,
        inner_snark_proof: Proof,
        execution: Execution,
    ) -> (r: OuterCircuit)
        ensures
            r.public@.inner == blank_inner_public_variables_spec(),
            r.public@.inner_circuit_id == zero_bytes_spec(32),
            r.public.wf(),
            r.private@.inner_snark_vk == inner_snark_vk@,
            r.private@.inner_snark_proof == inner_snark_proof@,
            r.private@.program_proofs.len() == NUM_TOTAL_RECORDS,
            forall|k: int|
                0 <= k < NUM_TOTAL_RECORDS ==> r.private@.program_proofs[k] == execution@,
            r.private@.program_commitment == commit_spec(Seq::<u8>::empty(), Seq::<u8>::empty()),
            r.private@.program_randomness == Seq::<u8>::empty(),
            r.private@.local_data_root_inner == zero_bytes_spec(32),
            r.private@.local_data_root_program == zero_bytes_spec(32),
    {
        OuterCircuit {
            public: OuterPublicVariables::blank(),
            private: OuterPrivateVariables::blank(inner_snark_vk, inner_snark_proof, execution),
        }
    }

    /// Populate an accumulator with this circuit's constraints.
    pub fn generate_constraints(&self, cs: &mut ConstraintAccumulator) -> (r: Result<
        (),
        SynthesisError,
    >)
        requires
            self.public.wf(),
            self.private.wf(),
        ensures
            r is Ok <==> self.private@.program_proofs.len() >= num_total_records(
                self.public@.inner,
            ),
            r is Err ==> r == Err::<(), SynthesisError>(SynthesisError::AssignmentMissing)
                && final(cs)@ == old(cs)@,
            r is Ok ==> final(cs)@.satisfied == (old(cs)@.satisfied && outer_checks_hold(
                self.public@,
                self.private@,
            )),
            r is Ok ==> final(cs)@.public_inputs == old(cs)@.public_inputs
                + outer_public_input_slots(self.public@),
    {
        execute_outer_circuit(cs, &self.public, &self.private)
    }
}

} // verus!
