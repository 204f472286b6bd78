//! The circuit registry: an append-only Merkle tree over circuit identifiers.
//!
//! A circuit's identifier is the digest of its verifying key's canonical
//! encoding. The registry is built once from an ordered list of circuits,
//! assigns each its zero-based insertion index as leaf position, pads the leaf
//! level to the tree's capacity and freezes; the root is the program
//! identifier. Lookups and membership paths never mutate the registry.

use vstd::prelude::*;
use crate::bytes::{bytes_clone, bytes_eq, bytes_view};
use crate::crh::{crh, hash_bytes, TAG_CIRCUIT_ID};
use crate::merkle::{
    is_pow2, leaf_hash, path_from_level, path_root, root_from_level, root_of, MerklePath,
};
use crate::snark::{
    blank_program_input_spec, program_input, program_input_spec, zero_digest,
    zero_digest_spec, Proof, ProgramPublicVariables, VerifyingKey,
};

verus! {

/// Leaf capacity of the registry's tree.
pub const TREE_CAPACITY: usize = 256;

/// Errors of registry construction and lookup.
#[derive(Clone, Copy, PartialEq, Eq, Structural, Debug)]
pub enum ProgramError {
    /// More circuits were supplied than the tree has leaves.
    CircuitCapacityExceeded,
    /// Two supplied circuits derive the same identifier.
    DuplicateCircuitIdentifier,
    /// The requested circuit identifier was never inserted.
    MissingLeaf,
}

/// The identifier a verifying key derives: the digest of its canonical encoding.
pub open spec fn circuit_id_spec(key: Seq<u8>) -> Seq<u8> {
    crh(TAG_CIRCUIT_ID, key)
}

/// The identifiers derived from a list of verifying keys, in order.
pub open spec fn ids_of(keys: Seq<Seq<u8>>) -> Seq<Seq<u8>> {
    keys.map_values(|k: Seq<u8>| circuit_id_spec(k))
}

/// Whether all identifiers in a list are distinct.
pub open spec fn distinct_ids(ids: Seq<Seq<u8>>) -> bool {
    forall|i: int, j: int| 0 <= i < j < ids.len() ==> ids[i] != ids[j]
}

/// The leaf level of the registry's tree: the leaf hash of each identifier in
/// insertion order, padded to capacity with the leaf hash of the zero digest.
pub open spec fn padded_leaves(ids: Seq<Seq<u8>>) -> Seq<Seq<u8>> {
    Seq::new(
        TREE_CAPACITY as nat,
        |i: int|
            if i < ids.len() {
                leaf_hash(ids[i])
            } else {
                leaf_hash(zero_digest_spec())
            },
    )
}

/// The program identifier of a list of circuit identifiers: the tree root.
pub open spec fn program_id_spec(ids: Seq<Seq<u8>>) -> Seq<u8> {
    root_of(padded_leaves(ids))
}

/// The tree's capacity is a power of two.
pub proof fn lemma_capacity_pow2()
    ensures
        is_pow2(TREE_CAPACITY as nat),
{
    reveal_with_fuel(is_pow2, 10);
}

/// One registered program circuit, known by its verifying key.
pub struct ProgramCircuit {
    /// The circuit's verifying key.
    pub verifying_key: VerifyingKey,
}

impl View for ProgramCircuit {
    type V = Seq<u8>;

    open spec fn view(&self) -> Seq<u8> {
        self.verifying_key@
    }
}

/// The verifying keys of a list of circuits, in order.
pub open spec fn keys_of(circuits: Seq<ProgramCircuit>) -> Seq<Seq<u8>> {
    circuits.map_values(|c: ProgramCircuit| c@)
}

impl ProgramCircuit {
    /// A circuit with the given verifying key.
    pub fn new(verifying_key: VerifyingKey) -> (r: ProgramCircuit)
        ensures
            r@ == verifying_key@,
    {
        ProgramCircuit { verifying_key }
    }

    /// The circuit's identifier: the digest of its verifying key.
    pub fn circuit_id(&self) -> (r: Vec<u8>)
        ensures
            r@ == circuit_id_spec(self@),
    {
        hash_bytes(TAG_CIRCUIT_ID, &self.verifying_key.bytes)
    }

    /// Run the circuit's proving routine on the supplied variables: the
    /// returned proof attests exactly the circuit's statement over them.
    pub fn execute(&self, public: &ProgramPublicVariables) -> (r: Proof)
        ensures
            r@.key == self@,
            r@.input == program_input_spec(public.position, public.local_data_root@),
    {
        let input = program_input(public);
        Proof::attest(&self.verifying_key, &input)
    }

    /// Run the circuit's placeholder proving routine: fixed default inputs,
    /// used only to fix the circuit's shape.
    pub fn execute_blank(&self) -> (r: Proof)
        ensures
            r@.key == self@,
            r@.input == blank_program_input_spec(),
    {
        let blank = crate::snark::blank_program_public_variables();
        let input = program_input(&blank);
        Proof::attest(&self.verifying_key, &input)
    }
}

/// Compute the padded leaf level of a list of circuits.
fn compute_padded_leaves(circuits: &Vec<ProgramCircuit>) -> (r: Vec<Vec<u8>>)
    requires
        circuits@.len() <= TREE_CAPACITY,
    ensures
        bytes_view(r@) == padded_leaves(ids_of(keys_of(circuits@))),
{
    let mut leaves: Vec<Vec<u8>> = Vec::new();
    let mut i: usize = 0;
    while i < circuits.len()
        invariant
            i <= circuits@.len(),
            leaves@.len() == i,
            forall|k: int|
                0 <= k < i ==> leaves@[k]@ == leaf_hash(circuit_id_spec(keys_of(circuits@)[k])),
        decreases circuits@.len() - i,
    {
        let id = circuits[i].circuit_id();
        leaves.push(hash_bytes(crate::crh::TAG_LEAF, &id));
        i = i + 1;
    }
    let zero = zero_digest();
    let pad = hash_bytes(crate::crh::TAG_LEAF, &zero);
    while leaves.len() < TREE_CAPACITY
        invariant
            circuits@.len() <= leaves@.len() <= TREE_CAPACITY,
            pad@ == leaf_hash(zero_digest_spec()),
            forall|k: int|
                0 <= k < circuits@.len() ==> leaves@[k]@ == leaf_hash(
                    circuit_id_spec(keys_of(circuits@)[k]),
                ),
            forall|k: int| circuits@.len() <= k < leaves@.len() ==> leaves@[k]@ == pad@,
        decreases TREE_CAPACITY - leaves@.len(),
    {
        leaves.push(bytes_clone(&pad));
    }
    proof {
        assert(bytes_view(leaves@) =~= padded_leaves(ids_of(keys_of(circuits@))));
    }
    leaves
}

/// The frozen registry: the ordered circuits and the cached tree root.
pub struct CircuitRegistry {
    circuits: Vec<ProgramCircuit>,
    root: Vec<u8>,
}

impl View for CircuitRegistry {
    type V = Seq<Seq<u8>>;

    /// The registry's content: the verifying keys of its circuits, in
    /// insertion order.
    closed spec fn view(&self) -> Seq<Seq<u8>> {
        keys_of(self.circuits@)
    }
}

impl CircuitRegistry {
    /// Well-formedness: within capacity, distinct identifiers, and the cached
    /// root is the tree root of the identifiers.
    pub closed spec fn wf(&self) -> bool {
        &&& self.circuits@.len() <= TREE_CAPACITY
        &&& distinct_ids(ids_of(self@))
        &&& self.root@ == program_id_spec(ids_of(self@))
    }

    /// Build the frozen registry from an ordered list of circuits: each is
    /// assigned its index as leaf position. Fails when the list exceeds the
    /// tree's capacity or two circuits derive the same identifier.
    pub fn build(circuits: Vec<ProgramCircuit>) -> (r: Result<CircuitRegistry, ProgramError>)
        ensures
            r is Ok <==> (circuits@.len() <= TREE_CAPACITY && distinct_ids(
                ids_of(keys_of(circuits@)),
            )),
            r is Ok ==> (r->Ok_0)@ == keys_of(circuits@) && (r->Ok_0).wf(),
            circuits@.len() > TREE_CAPACITY ==> r == Err::<CircuitRegistry, ProgramError>(
                ProgramError::CircuitCapacityExceeded,
            ),
            r is Err && circuits@.len() <= TREE_CAPACITY ==> r == Err::<
                CircuitRegistry,
                ProgramError,
            >(ProgramError::DuplicateCircuitIdentifier),
    {
        if circuits.len() > TREE_CAPACITY {
            return Err(ProgramError::CircuitCapacityExceeded);
        }
        let ghost ids = ids_of(keys_of(circuits@));
        let mut i: usize = 0;
        while i < circuits.len()
            invariant
                i <= circuits@.len(),
                circuits@.len() <= TREE_CAPACITY,
                ids == ids_of(keys_of(circuits@)),
                forall|a: int, b: int| 0 <= a < b < i ==> ids[a] != ids[b],
            decreases circuits@.len() - i,
        {
            let id_i = circuits[i].circuit_id();
            proof {
                assert(ids[i as int] == circuit_id_spec(keys_of(circuits@)[i as int]));
            }
            let mut j: usize = 0;
            while j < i
                invariant
                    j <= i < circuits@.len(),
                    circuits@.len() <= TREE_CAPACITY,
                    ids == ids_of(keys_of(circuits@)),
                    id_i@ == ids[i as int],
                    forall|b: int| 0 <= b < j ==> ids[b] != ids[i as int],
                decreases i - j,
            {
                let id_j = circuits[j].circuit_id();
                if bytes_eq(&id_j, &id_i) {
                    proof {
                        assert(ids[j as int] == ids[i as int]);
                        assert(!distinct_ids(ids));
                    }
                    return Err(ProgramError::DuplicateCircuitIdentifier);
                }
                j = j + 1;
            }
            i = i + 1;
        }
        let leaves = compute_padded_leaves(&circuits);
        proof {
            lemma_capacity_pow2();
            assert(bytes_view(leaves@).len() == TREE_CAPACITY);
            assert(leaves@.len() == TREE_CAPACITY);
        }
        let root = root_from_level(leaves);
        Ok(CircuitRegistry { circuits, root })
    }

    /// The number of registered circuits.
    pub fn len(&self) -> (r: usize)
        ensures
            r == self@.len(),
    {
        self.circuits.len()
    }

    /// The program identifier: the registry's tree root.
    pub fn program_id(&self) -> (r: Vec<u8>)
        requires
            self.wf(),
        ensures
            r@ == program_id_spec(ids_of(self@)),
    {
        bytes_clone(&self.root)
    }

    /// Find the position of an identifier, scanning in insertion order.
    fn find_index(&self, circuit_id: &Vec<u8>) -> (r: Option<usize>)
        ensures
            match r {
                Some(k) => k < self@.len() && ids_of(self@)[k as int] == circuit_id@,
                None => !ids_of(self@).contains(circuit_id@),
            },
    {
        let mut i: usize = 0;
        while i < self.circuits.len()
            invariant
                i <= self@.len(),
                forall|k: int| 0 <= k < i ==> ids_of(self@)[k] != circuit_id@,
        decreases self@.len() - i,
        {
            let id = self.circuits[i].circuit_id();
            if bytes_eq(&id, circuit_id) {
                return Some(i);
            }
            i = i + 1;
        }
        proof {
            assert(forall|k: int|
                0 <= k < ids_of(self@).len() ==> ids_of(self@)[k] != circuit_id@);
        }
        None
    }

    /// Whether the identifier was inserted.
    pub fn contains_circuit(&self, circuit_id: &Vec<u8>) -> (r: bool)
        ensures
            r == ids_of(self@).contains(circuit_id@),
    {
        match self.find_index(circuit_id) {
            Some(k) => {
                proof {
                    assert(ids_of(self@)[k as int] == circuit_id@);
                }
                true
            },
            None => false,
        }
    }

    /// The circuit with the given identifier, if it was inserted.
    pub fn get_circuit(&self, circuit_id: &Vec<u8>) -> (r: Option<&ProgramCircuit>)
        ensures
            r is Some <==> ids_of(self@).contains(circuit_id@),
            match r {
                Some(c) => exists|k: int|
                    0 <= k < self@.len() && ids_of(self@)[k] == circuit_id@ && c@ == self@[k],
                None => true,
            },
    {
        match self.find_index(circuit_id) {
            Some(k) => {
                proof {
                    assert(ids_of(self@)[k as int] == circuit_id@);
                }
                Some(&self.circuits[k])
            },
            None => None,
        }
    }

    /// The circuit at the given insertion index, if one exists.
    pub fn find_circuit_by_index(&self, circuit_index: u8) -> (r: Option<&ProgramCircuit>)
        ensures
            r is Some <==> circuit_index < self@.len(),
            match r {
                Some(c) => c@ == self@[circuit_index as int],
                None => true,
            },
    {
        if (circuit_index as usize) < self.circuits.len() {
            Some(&self.circuits[circuit_index as usize])
        } else {
            None
        }
    }

    /// The membership path of the given identifier's leaf. Succeeds exactly
    /// for inserted identifiers, and the path recomputes the program
    /// identifier from the identifier's leaf hash.
    pub fn get_program_path(&self, circuit_id: &Vec<u8>) -> (r: Result<MerklePath, ProgramError>)
        requires
            self.wf(),
        ensures
            r is Ok <==> ids_of(self@).contains(circuit_id@),
            r is Err ==> r == Err::<MerklePath, ProgramError>(ProgramError::MissingLeaf),
            r is Ok ==> {
                let path = r->Ok_0;
                &&& path@.bits.len() == path@.siblings.len()
                &&& path_root(leaf_hash(circuit_id@), path@.siblings, path@.bits)
                    == program_id_spec(ids_of(self@))
            },
    {
        let index = match self.find_index(circuit_id) {
            Some(k) => k,
            None => {
                return Err(ProgramError::MissingLeaf);
            },
        };
        let leaves = compute_padded_leaves(&self.circuits);
        proof {
            lemma_capacity_pow2();
            assert(bytes_view(leaves@).len() == TREE_CAPACITY);
            assert(leaves@.len() == TREE_CAPACITY);
        }
        let ghost leaves_view = bytes_view(leaves@);
        let path = path_from_level(leaves, index);
        proof {
            crate::merkle::lemma_path_recomputes_root(leaves_view, index as int);
            assert(leaves_view[index as int] == leaf_hash(circuit_id@));
            assert(ids_of(self@).contains(circuit_id@)) by {
                assert(ids_of(self@)[index as int] == circuit_id@);
            }
        }
        Ok(path)
    }
}

} // verus!
