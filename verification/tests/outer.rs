use dpc::bytes::u64_le_bytes;
use dpc::crh::{hash_bytes, TAG_INNER_CIRCUIT_ID};
use dpc::encode::to_field_elements;
use dpc::outer_circuit::{
    execute_outer_circuit, value_balance_to_u64, InnerPublicVariables, OuterCircuit,
    OuterPrivateVariables, OuterPublicVariables,
};
use dpc::program::{Execution, Program, ProgramPrivateVariables};
use dpc::r1cs::{ConstraintAccumulator, SynthesisError};
use dpc::registry::ProgramCircuit;
use dpc::snark::{Commitment, ProgramPublicVariables, Proof, VerifyingKey};

fn program_with_two_circuits() -> (Program, Vec<u8>, Vec<u8>) {
    let a = ProgramCircuit::new(VerifyingKey::new(vec![b'A'; 40]));
    let b = ProgramCircuit::new(VerifyingKey::new(vec![b'B'; 40]));
    let id_a = a.circuit_id();
    let id_b = b.circuit_id();
    let program = Program::new(vec![a, b]).unwrap();
    (program, id_a, id_b)
}

fn run_execution(program: &Program, id: &Vec<u8>, position: u64, ldr: &Vec<u8>) -> Execution {
    let public = ProgramPublicVariables { position, local_data_root: ldr.clone() };
    let private = ProgramPrivateVariables { payload: Vec::new() };
    program.execute(id, &public, &private).unwrap()
}

/// A correctly assembled outer statement: two serial numbers and one
/// commitment pair (three record slots), matching encoding order, matching
/// commitment randomness, matching local data root in both domains, and
/// valid inner and program sub-proofs.
fn assemble() -> (OuterPublicVariables, OuterPrivateVariables) {
    let (program, id_a, id_b) = program_with_two_circuits();
    let ldr = vec![3u8; 32];

    let executions = vec![
        run_execution(&program, &id_a, 0, &ldr),
        run_execution(&program, &id_b, 1, &ldr),
        run_execution(&program, &id_a, 2, &ldr),
    ];

    // The commitment binds the concatenated per-record program identifiers.
    let root = program.program_id();
    let mut message = Vec::new();
    for _ in 0..3 {
        message.extend_from_slice(&root);
    }
    let randomness = vec![9u8; 16];
    let program_commitment = Commitment::commit(&message, &randomness);

    let inner = InnerPublicVariables {
        ledger_digest: vec![1u8; 32],
        serial_numbers: vec![vec![10u8; 32], vec![20u8; 32]],
        commitments: vec![vec![11u8; 32]],
        encrypted_record_hashes: vec![vec![12u8; 32]],
        memo: vec![7u8; 64],
        network_id: 1,
        value_balance: -5,
    };

    // The merged inner input, in the protocol's fixed order.
    let mut input: Vec<Vec<u8>> = Vec::new();
    input.extend(to_field_elements(&inner.ledger_digest));
    for sn in &inner.serial_numbers {
        input.extend(to_field_elements(sn));
    }
    input.extend(to_field_elements(&inner.commitments[0]));
    input.extend(to_field_elements(&inner.encrypted_record_hashes[0]));
    input.extend(to_field_elements(&program_commitment.to_bytes()));
    input.extend(to_field_elements(&inner.memo));
    input.extend(to_field_elements(&vec![inner.network_id]));
    input.extend(to_field_elements(&ldr));
    input.extend(to_field_elements(&u64_le_bytes(value_balance_to_u64(inner.value_balance))));

    let inner_snark_vk = VerifyingKey::new(vec![42u8; 48]);
    let inner_snark_proof = Proof::attest(&inner_snark_vk, &input);
    let inner_circuit_id = hash_bytes(TAG_INNER_CIRCUIT_ID, &inner_snark_vk.bytes);

    let public = OuterPublicVariables { inner_public_variables: inner, inner_circuit_id };
    let private = OuterPrivateVariables {
        inner_snark_vk,
        inner_snark_proof,
        program_proofs: executions,
        program_commitment,
        program_randomness: randomness,
        local_data_root_inner: ldr.clone(),
        local_data_root_program: ldr,
    };
    (public, private)
}

fn synthesize(public: &OuterPublicVariables, private: &OuterPrivateVariables) -> bool {
    let mut cs = ConstraintAccumulator::new();
    execute_outer_circuit(&mut cs, public, private).unwrap();
    cs.is_satisfiable()
}

#[test]
fn correctly_assembled_statement_is_satisfiable() {
    let (public, private) = assemble();
    let mut cs = ConstraintAccumulator::new();
    execute_outer_circuit(&mut cs, &public, &private).unwrap();
    assert!(cs.is_satisfiable());
    // ledger 2 + serials 4 + pair 4 + memo 4 + network 1 + balance 1 + id 1
    assert_eq!(cs.num_public_inputs(), 17);
}

#[test]
fn flipping_the_inner_circuit_id_is_unsatisfiable() {
    let (mut public, private) = assemble();
    assert!(synthesize(&public, &private));
    public.inner_circuit_id[0] ^= 1;
    assert!(!synthesize(&public, &private));
}

#[test]
fn permuting_serial_numbers_is_unsatisfiable() {
    let (mut public, private) = assemble();
    assert!(synthesize(&public, &private));
    public.inner_public_variables.serial_numbers.swap(0, 1);
    assert!(!synthesize(&public, &private));
}

#[test]
fn permuting_a_commitment_pair_is_unsatisfiable() {
    let (mut public, private) = assemble();
    assert!(synthesize(&public, &private));
    let cm = public.inner_public_variables.commitments[0].clone();
    let erh = public.inner_public_variables.encrypted_record_hashes[0].clone();
    public.inner_public_variables.commitments[0] = erh;
    public.inner_public_variables.encrypted_record_hashes[0] = cm;
    assert!(!synthesize(&public, &private));
}

#[test]
fn split_local_data_roots_are_unsatisfiable_even_with_valid_sub_proofs() {
    let (public, mut private) = assemble();
    assert!(synthesize(&public, &private));

    // Rebuild every program proof against a different program-domain root, so
    // each sub-proof stays individually valid; only the cross-domain equality
    // breaks.
    let (program, id_a, id_b) = program_with_two_circuits();
    let other = vec![4u8; 32];
    private.program_proofs = vec![
        run_execution(&program, &id_a, 0, &other),
        run_execution(&program, &id_b, 1, &other),
        run_execution(&program, &id_a, 2, &other),
    ];
    private.local_data_root_program = other;
    assert!(!synthesize(&public, &private));
}

#[test]
fn changing_a_claimed_verifying_key_breaks_the_commitment() {
    let (public, mut private) = assemble();
    assert!(synthesize(&public, &private));

    // Swap record 1's claimed verifying key for a foreign one, with a proof
    // that still verifies for it, and leave the commitment untouched.
    let foreign = VerifyingKey::new(vec![b'C'; 40]);
    let ldr = vec![3u8; 32];
    let blank = ProgramPublicVariables { position: 1, local_data_root: ldr };
    let input = dpc::snark::program_input(&blank);
    let replacement = Execution {
        program_path: private.program_proofs[1].program_path.duplicate(),
        verifying_key: foreign.duplicate(),
        proof: Proof::attest(&foreign, &input),
    };
    private.program_proofs[1] = replacement;
    assert!(!synthesize(&public, &private));
}

#[test]
fn missing_program_proof_aborts_with_allocation_error() {
    let (public, mut private) = assemble();
    private.program_proofs.pop();
    let mut cs = ConstraintAccumulator::new();
    let result = execute_outer_circuit(&mut cs, &public, &private);
    assert!(matches!(result, Err(SynthesisError::AssignmentMissing)));
}

#[test]
fn blank_circuit_fixes_the_shape() {
    let (program, id_a, _) = program_with_two_circuits();
    let execution = program.execute_blank(&id_a).unwrap();
    let vk = VerifyingKey::new(vec![42u8; 48]);
    let empty_input: Vec<Vec<u8>> = Vec::new();
    let proof = Proof::attest(&vk, &empty_input);
    let circuit = OuterCircuit::blank(vk, proof, execution);
    let mut cs = ConstraintAccumulator::new();
    circuit.generate_constraints(&mut cs).unwrap();
    // ledger 2 + serials 4 + pairs 8 + memo 4 + network 1 + balance 1 + id 1
    assert_eq!(cs.num_public_inputs(), 21);

    // The same blank call fixes the same verifying key every time.
    let again = program.execute_blank(&id_a).unwrap();
    assert_eq!(again.verifying_key.bytes, vec![b'A'; 40]);
}

#[test]
fn outer_circuit_new_carries_its_variables() {
    let (public, private) = assemble();
    let circuit = OuterCircuit::new(public, private);
    let mut cs = ConstraintAccumulator::new();
    circuit.generate_constraints(&mut cs).unwrap();
    assert!(cs.is_satisfiable());
}
