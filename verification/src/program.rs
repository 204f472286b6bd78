//! The program orchestrator: a frozen registry and the execution bundles it
//! answers.
//!
//! A program wraps one built, immutable registry. Executing a registered
//! circuit yields an `Execution` bundle: the circuit's membership path, its
//! verifying key and a proof of its statement over the supplied variables.
//! The defensive re-checks one would otherwise run — that the retrieved
//! circuit reports the requested identifier and that the fetched path
//! verifies against the program identifier — are here discharged statically:
//! both facts are part of the registry's contracts.

use vstd::prelude::*;
use crate::merkle::{leaf_hash, path_root, MerklePath, MerklePathView};
use crate::registry::{
    distinct_ids, ids_of, keys_of, program_id_spec, CircuitRegistry,
    ProgramCircuit, ProgramError, TREE_CAPACITY,
};
use crate::snark::{
    blank_program_input_spec, program_input_spec, snark_verifies, Proof, ProofView,
    ProgramPublicVariables, VerifyingKey,
};

verus! {

/// Private variables of one program-circuit execution: an opaque witness
/// payload known only to the prover.
pub struct ProgramPrivateVariables {
    /// The witness payload.
    pub payload: Vec<u8>,
}

/// The result of running one registered circuit.
pub struct Execution {
    /// The membership path of the circuit's identifier.
    pub program_path: MerklePath,
    /// The circuit's verifying key.
    pub verifying_key: VerifyingKey,
    /// The proof of the circuit's statement.
    pub proof: Proof,
}

/// The mathematical content of an execution bundle.
pub struct ExecutionView {
    /// The membership path.
    pub program_path: MerklePathView,
    /// Canonical encoding of the verifying key.
    pub verifying_key: Seq<u8>,
    /// The statement the proof attests.
    pub proof: ProofView,
}

impl View for Execution {
    type V = ExecutionView;

    open spec fn view(&self) -> ExecutionView {
        ExecutionView {
            program_path: self.program_path@,
            verifying_key: self.verifying_key@,
            proof: self.proof@,
        }
    }
}

impl Execution {
    /// A fresh copy of this bundle.
    pub fn duplicate(&self) -> (r: Execution)
        ensures
            r@ == self@,
    {
        let r = Execution {
            program_path: self.program_path.duplicate(),
            verifying_key: self.verifying_key.duplicate(),
            proof: self.proof.duplicate(),
        };
        proof {
            assert(r@.program_path == self@.program_path);
        }
        r
    }
}

/// What a returned execution bundle holds, as a predicate over the registry
/// content, the requested identifier and the proven input.
pub open spec fn execution_ensures(
    keys: Seq<Seq<u8>>,
    circuit_id: Seq<u8>,
    input: Seq<Seq<u8>>,
    e: ExecutionView,
) -> bool {
    &&& e.program_path.bits.len() == e.program_path.siblings.len()
    &&& path_root(leaf_hash(circuit_id), e.program_path.siblings, e.program_path.bits)
        == program_id_spec(ids_of(keys))
    &&& exists|k: int|
        0 <= k < keys.len() && ids_of(keys)[k] == circuit_id && e.verifying_key == keys[k]
    &&& snark_verifies(e.verifying_key, input, e.proof)
}

/// A program: one frozen circuit registry, shared read-only.
pub struct Program {
    registry: CircuitRegistry,
}

impl View for Program {
    type V = Seq<Seq<u8>>;

    /// The program's content: the verifying keys of its circuits, in order.
    closed spec fn view(&self) -> Seq<Seq<u8>> {
        self.registry@
    }
}

impl Program {
    /// Well-formedness: the wrapped registry is well-formed.
    pub closed spec fn wf(&self) -> bool {
        self.registry.wf()
    }

    /// Initializes an instance of the program with the given circuits: builds
    /// the registry, assigning each circuit its index, and freezes it.
    pub fn new(circuits: Vec<ProgramCircuit>) -> (r: Result<Program, ProgramError>)
        ensures
            r is Ok <==> (circuits@.len() <= TREE_CAPACITY && distinct_ids(
                ids_of(keys_of(circuits@)),
            )),
            r is Ok ==> (r->Ok_0)@ == keys_of(circuits@) && (r->Ok_0).wf(),
            circuits@.len() > TREE_CAPACITY ==> r == Err::<Program, ProgramError>(
                ProgramError::CircuitCapacityExceeded,
            ),
            r is Err && circuits@.len() <= TREE_CAPACITY ==> r == Err::<Program, ProgramError>(
                ProgramError::DuplicateCircuitIdentifier,
            ),
    {
        match CircuitRegistry::build(circuits) {
            Ok(registry) => Ok(Program { registry }),
            Err(e) => Err(e),
        }
    }

    /// The program identifier: the registry's tree root.
    pub fn program_id(&self) -> (r: Vec<u8>)
        requires
            self.wf(),
        ensures
            r@ == program_id_spec(ids_of(self@)),
    {
        self.registry.program_id()
    }

    /// Whether the given circuit identifier exists in the program.
    pub fn contains_circuit(&self, circuit_id: &Vec<u8>) -> (r: bool)
        ensures
            r == ids_of(self@).contains(circuit_id@),
    {
        self.registry.contains_circuit(circuit_id)
    }

    /// The circuit with the given identifier, if it exists.
    pub fn get_circuit(&self, circuit_id: &Vec<u8>) -> (r: Option<&ProgramCircuit>)
        ensures
            r is Some <==> ids_of(self@).contains(circuit_id@),
            match r {
                Some(c) => exists|k: int|
                    0 <= k < self@.len() && ids_of(self@)[k] == circuit_id@ && c@ == self@[k],
                None => true,
            },
    {
        self.registry.get_circuit(circuit_id)
    }

    /// The circuit at the given index, if it exists.
    pub fn find_circuit_by_index(&self, circuit_index: u8) -> (r: Option<&ProgramCircuit>)
        ensures
            r is Some <==> circuit_index < self@.len(),
            match r {
                Some(c) => c@ == self@[circuit_index as int],
                None => true,
            },
    {
        self.registry.find_circuit_by_index(circuit_index)
    }

    /// Execute the circuit with the given identifier on the supplied
    /// variables. Fails with the missing-leaf error exactly when the
    /// identifier was never inserted; otherwise the bundle's path recomputes
    /// the program identifier and its proof attests the circuit's statement
    /// over the supplied variables.
    pub fn execute(
        &self,
        circuit_id: &Vec<u8>,
        public: &ProgramPublicVariables,
        private: &ProgramPrivateVariables,
    ) -> (r: Result<Execution, ProgramError>)
        requires
            self.wf(),
        ensures
            r is Ok <==> ids_of(self@).contains(circuit_id@),
            r is Err ==> r == Err::<Execution, ProgramError>(ProgramError::MissingLeaf),
            r is Ok ==> execution_ensures(
                self@,
                circuit_id@,
                program_input_spec(public.position, public.local_data_root@),
                (r->Ok_0)@,
            ),
    {
        let circuit = match self.registry.get_circuit(circuit_id) {
            Some(circuit) => circuit,
            None => {
                return Err(ProgramError::MissingLeaf);
            },
        };
        let program_path = match self.registry.get_program_path(circuit_id) {
            Ok(path) => path,
            Err(_) => {
                proof {
                    assert(false);
                }
                return Err(ProgramError::MissingLeaf);
            },
        };
        let proof = circuit.execute(public);
        let verifying_key = circuit.verifying_key.duplicate();
        Ok(Execution { program_path, verifying_key, proof })
    }

    /// Execute the circuit's placeholder proving routine: fixed default
    /// inputs, solely to fix the circuit's constraint shape. Deterministic:
    /// the bundle is a pure function of the program and the identifier.
    pub fn execute_blank(&self, circuit_id: &Vec<u8>) -> (r: Result<Execution, ProgramError>)
        requires
            self.wf(),
        ensures
            r is Ok <==> ids_of(self@).contains(circuit_id@),
            r is Err ==> r == Err::<Execution, ProgramError>(ProgramError::MissingLeaf),
            r is Ok ==> execution_ensures(
                self@,
                circuit_id@,
                blank_program_input_spec(),
                (r->Ok_0)@,
            ),
    {
        let circuit = match self.registry.get_circuit(circuit_id) {
            Some(circuit) => circuit,
            None => {
                return Err(ProgramError::MissingLeaf);
            },
        };
        let program_path = match self.registry.get_program_path(circuit_id) {
            Ok(path) => path,
            Err(_) => {
                proof {
                    assert(false);
                }
                return Err(ProgramError::MissingLeaf);
            },
        };
        let proof = circuit.execute_blank();
        let verifying_key = circuit.verifying_key.duplicate();
        Ok(Execution { program_path, verifying_key, proof })
    }
}

/// Executing a circuit is deterministic: any two bundles that meet the
/// execution contract for the same program content, identifier and input
/// carry the same verifying key and attest the same statement.
pub proof fn lemma_execution_deterministic(
    keys: Seq<Seq<u8>>,
    circuit_id: Seq<u8>,
    input: Seq<Seq<u8>>,
    e1: ExecutionView,
    e2: ExecutionView,
)
    requires
        distinct_ids(ids_of(keys)),
        execution_ensures(keys, circuit_id, input, e1),
        execution_ensures(keys, circuit_id, input, e2),
    ensures
        e1.verifying_key == e2.verifying_key,
        e1.proof == e2.proof,
{
    let k1 = choose|k: int|
        0 <= k < keys.len() && ids_of(keys)[k] == circuit_id && e1.verifying_key == keys[k];
    let k2 = choose|k: int|
        0 <= k < keys.len() && ids_of(keys)[k] == circuit_id && e2.verifying_key == keys[k];
    if k1 != k2 {
        assert(ids_of(keys)[k1] == ids_of(keys)[k2]);
    }
}

} // verus!
