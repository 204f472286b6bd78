use dpc::bytes::bytes_concat;
use dpc::crh::{hash_bytes, TAG_CIRCUIT_ID, TAG_LEAF, TAG_NODE};
use dpc::program::{Program, ProgramPrivateVariables};
use dpc::registry::{CircuitRegistry, ProgramCircuit, ProgramError};
use dpc::snark::{ProgramPublicVariables, VerifyingKey};

fn circuit(tag: u8) -> ProgramCircuit {
    ProgramCircuit::new(VerifyingKey::new(vec![tag; 40]))
}

fn circuit_id(tag: u8) -> Vec<u8> {
    hash_bytes(TAG_CIRCUIT_ID, &vec![tag; 40])
}

/// The Merkle root of the identifiers, computed by hand: leaf hashes padded
/// to capacity with the zero leaf, then pairs hashed upward.
fn manual_root(ids: &[Vec<u8>]) -> Vec<u8> {
    let mut level: Vec<Vec<u8>> = ids.iter().map(|id| hash_bytes(TAG_LEAF, id)).collect();
    let pad = hash_bytes(TAG_LEAF, &vec![0u8; 32]);
    while level.len() < 256 {
        level.push(pad.clone());
    }
    while level.len() > 1 {
        let mut next = Vec::new();
        for pair in level.chunks(2) {
            next.push(hash_bytes(TAG_NODE, &bytes_concat(&pair[0], &pair[1])));
        }
        level = next;
    }
    level.pop().unwrap()
}

#[test]
fn program_id_is_merkle_root_of_circuit_ids() {
    let program = Program::new(vec![circuit(b'A'), circuit(b'B')]).unwrap();
    let expected = manual_root(&[circuit_id(b'A'), circuit_id(b'B')]);
    assert_eq!(program.program_id(), expected);
}

#[test]
fn membership_paths_exist_exactly_for_inserted_ids() {
    let registry = CircuitRegistry::build(vec![circuit(b'A'), circuit(b'B')]).unwrap();
    let root = registry.program_id();
    for tag in [b'A', b'B'] {
        let id = circuit_id(tag);
        assert!(registry.contains_circuit(&id));
        let path = registry.get_program_path(&id).unwrap();
        assert!(path.verify(&root, &id));
    }
    let absent = circuit_id(b'C');
    assert!(!registry.contains_circuit(&absent));
    assert!(matches!(registry.get_program_path(&absent), Err(ProgramError::MissingLeaf)));
}

#[test]
fn path_recomputes_root_for_every_inserted_id() {
    let circuits: Vec<ProgramCircuit> = (0u8..5).map(|t| circuit(t)).collect();
    let registry = CircuitRegistry::build(circuits).unwrap();
    let root = registry.program_id();
    for t in 0u8..5 {
        let id = circuit_id(t);
        let path = registry.get_program_path(&id).unwrap();
        assert_eq!(path.calculate_root(&id), root);
    }
}

#[test]
fn build_rejects_duplicates_and_overflow() {
    let result = Program::new(vec![circuit(b'A'), circuit(b'A')]);
    assert!(matches!(result, Err(ProgramError::DuplicateCircuitIdentifier)));

    let mut many = Vec::new();
    for i in 0..257u16 {
        many.push(ProgramCircuit::new(VerifyingKey::new(vec![
            (i % 256) as u8,
            (i / 256) as u8,
        ])));
    }
    let result = Program::new(many);
    assert!(matches!(result, Err(ProgramError::CircuitCapacityExceeded)));
}

#[test]
fn lookups_by_id_and_index() {
    let program = Program::new(vec![circuit(b'A'), circuit(b'B')]).unwrap();
    let found = program.get_circuit(&circuit_id(b'B')).unwrap();
    assert_eq!(found.circuit_id(), circuit_id(b'B'));
    assert!(program.get_circuit(&circuit_id(b'C')).is_none());
    let by_index = program.find_circuit_by_index(0).unwrap();
    assert_eq!(by_index.circuit_id(), circuit_id(b'A'));
    assert!(program.find_circuit_by_index(2).is_none());
}

#[test]
fn execute_returns_verified_bundle_and_missing_leaf() {
    let program = Program::new(vec![circuit(b'A'), circuit(b'B')]).unwrap();
    let public = ProgramPublicVariables { position: 0, local_data_root: vec![3u8; 32] };
    let private = ProgramPrivateVariables { payload: vec![1, 2, 3] };
    let id_a = circuit_id(b'A');
    let execution = program.execute(&id_a, &public, &private).unwrap();
    assert!(execution.program_path.verify(&program.program_id(), &id_a));
    assert_eq!(execution.verifying_key.bytes, vec![b'A'; 40]);

    let missing = program.execute(&circuit_id(b'C'), &public, &private);
    assert!(matches!(missing, Err(ProgramError::MissingLeaf)));
}

#[test]
fn execute_blank_is_deterministic() {
    let program = Program::new(vec![circuit(b'A'), circuit(b'B')]).unwrap();
    let id_a = circuit_id(b'A');
    let first = program.execute_blank(&id_a).unwrap();
    let second = program.execute_blank(&id_a).unwrap();
    assert_eq!(first.verifying_key.bytes, second.verifying_key.bytes);
    assert!(first.proof.check(&first.verifying_key, &{
        let blank = dpc::snark::blank_program_public_variables();
        dpc::snark::program_input(&blank)
    }));
}
