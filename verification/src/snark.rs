//! Models of the proof-system and commitment collaborators.
//!
//! The proof systems are consumed only through their verification predicate:
//! a proof attests to exactly one (verifying key, input) statement, and the
//! predicate holds exactly of that statement. The commitment is randomized
//! and binding: two equal commitments carry the same committed message.

use vstd::prelude::*;
use crate::bytes::{bytes_clone, bytes_concat, bytes_eq, bytes_seq_eq, bytes_view, le_bytes, u64_le_bytes};
use crate::crh::{crh, hash_bytes, TAG_COMMITMENT};
use crate::encode::{encode_bytes, to_field_elements};

verus! {

/// A verifying key, held as its canonical minimal-bit encoding packed in bytes.
pub struct VerifyingKey {
    /// The canonical encoding of the key.
    pub bytes: Vec<u8>,
}

impl View for VerifyingKey {
    type V = Seq<u8>;

    open spec fn view(&self) -> Seq<u8> {
        self.bytes@
    }
}

impl VerifyingKey {
    /// A key with the given canonical encoding.
    pub fn new(bytes: Vec<u8>) -> (r: VerifyingKey)
        ensures
            r@ == bytes@,
    {
        VerifyingKey { bytes }
    }

    /// A fresh copy of this key.
    pub fn duplicate(&self) -> (r: VerifyingKey)
        ensures
            r@ == self@,
    {
        VerifyingKey { bytes: bytes_clone(&self.bytes) }
    }
}

/// The statement a proof attests to.
pub struct ProofView {
    /// Canonical encoding of the verifying key of the statement.
    pub key: Seq<u8>,
    /// The field-element input of the statement.
    pub input: Seq<Seq<u8>>,
}

/// A proof of one (verifying key, input) statement.
pub struct Proof {
    key: Vec<u8>,
    input: Vec<Vec<u8>>,
}

impl View for Proof {
    type V = ProofView;

    closed spec fn view(&self) -> ProofView {
        ProofView { key: self.key@, input: bytes_view(self.input@) }
    }
}

/// The verification predicate: the proof attests exactly the given statement.
pub open spec fn snark_verifies(key: Seq<u8>, input: Seq<Seq<u8>>, proof: ProofView) -> bool {
    proof.key == key && proof.input == input
}

impl Proof {
    /// The proof of the statement (key, input): what the prover of either
    /// proof system returns for a satisfied circuit.
    pub fn attest(key: &VerifyingKey, input: &Vec<Vec<u8>>) -> (r: Proof)
        ensures
            r@.key == key@,
            r@.input == bytes_view(input@),
            snark_verifies(key@, bytes_view(input@), r@),
    {
        let mut own_input: Vec<Vec<u8>> = Vec::new();
        let mut i: usize = 0;
        while i < input.len()
            invariant
                i <= input@.len(),
                own_input@.len() == i,
                forall|k: int| 0 <= k < i ==> own_input@[k]@ == input@[k]@,
            decreases input@.len() - i,
        {
            own_input.push(bytes_clone(&input[i]));
            i = i + 1;
        }
        proof {
            assert(bytes_view(own_input@) =~= bytes_view(input@));
        }
        Proof { key: bytes_clone(&key.bytes), input: own_input }
    }

    /// A fresh copy of this proof.
    pub fn duplicate(&self) -> (r: Proof)
        ensures
            r@ == self@,
    {
        let key = VerifyingKey { bytes: bytes_clone(&self.key) };
        let copy = Proof::attest(&key, &self.input);
        proof {
            assert(copy@ =~= self@);
        }
        copy
    }

    /// Check this proof against a statement.
    pub fn check(&self, key: &VerifyingKey, input: &Vec<Vec<u8>>) -> (r: bool)
        ensures
            r == snark_verifies(key@, bytes_view(input@), self@),
    {
        bytes_eq(&self.key, &key.bytes) && bytes_seq_eq(&self.input, input)
    }
}

/// The mathematical content of a commitment.
pub struct CommitmentView {
    /// The committed message.
    pub message: Seq<u8>,
    /// The randomized tag over the message.
    pub tag: Seq<u8>,
}

/// A randomized binding commitment over a byte message.
pub struct Commitment {
    message: Vec<u8>,
    tag: Vec<u8>,
}

impl View for Commitment {
    type V = CommitmentView;

    closed spec fn view(&self) -> CommitmentView {
        CommitmentView { message: self.message@, tag: self.tag@ }
    }
}

/// The commitment over a message with the given randomness.
pub open spec fn commit_spec(message: Seq<u8>, randomness: Seq<u8>) -> CommitmentView {
    CommitmentView { message, tag: crh(TAG_COMMITMENT, randomness + message) }
}

/// Equal commitments commit to equal messages: the scheme is binding.
pub proof fn lemma_commitment_binding(
    m1: Seq<u8>,
    r1: Seq<u8>,
    m2: Seq<u8>,
    r2: Seq<u8>,
)
    requires
        commit_spec(m1, r1) == commit_spec(m2, r2),
    ensures
        m1 == m2,
{
}

impl Commitment {
    /// Commit to a message with the given randomness.
    pub fn commit(message: &Vec<u8>, randomness: &Vec<u8>) -> (r: Commitment)
        ensures
            r@ == commit_spec(message@, randomness@),
    {
        let joined = bytes_concat(randomness, message);
        Commitment { message: bytes_clone(message), tag: hash_bytes(TAG_COMMITMENT, &joined) }
    }

    /// A fresh copy of this commitment.
    pub fn duplicate(&self) -> (r: Commitment)
        ensures
            r@ == self@,
    {
        Commitment { message: bytes_clone(&self.message), tag: bytes_clone(&self.tag) }
    }

    /// The canonical byte encoding of this commitment value: its tag.
    pub fn to_bytes(&self) -> (r: Vec<u8>)
        ensures
            r@ == self@.tag,
    {
        bytes_clone(&self.tag)
    }

    /// Equality of two commitment values.
    pub fn equals(&self, other: &Commitment) -> (r: bool)
        ensures
            r == (self@ == other@),
    {
        let same = bytes_eq(&self.message, &other.message) && bytes_eq(&self.tag, &other.tag);
        proof {
            if self@.message == other@.message && self@.tag == other@.tag {
                assert(self@ == other@);
            }
        }
        same
    }
}

/// The all-zero digest used for blank values and tree padding.
pub open spec fn zero_digest_spec() -> Seq<u8> {
    Seq::new(32, |i: int| 0u8)
}

/// Build the all-zero digest.
pub fn zero_digest() -> (r: Vec<u8>)
    ensures
        r@ == zero_digest_spec(),
{
    let mut r: Vec<u8> = Vec::new();
    let mut i: usize = 0;
    while i < 32
        invariant
            i <= 32,
            r@.len() == i,
            forall|k: int| 0 <= k < i ==> r@[k] == 0u8,
        decreases 32 - i,
    {
        r.push(0u8);
        i = i + 1;
    }
    proof {
        assert(r@ =~= zero_digest_spec());
    }
    r
}

/// Public variables of one program-circuit execution: the record's slot
/// position and the local data root shared with the inner statement.
pub struct ProgramPublicVariables {
    /// Zero-based slot position of the record.
    pub position: u64,
    /// The local data root, in the program proof system's domain.
    pub local_data_root: Vec<u8>,
}

/// The verification input of a program proof: the slot position as a single
/// field element, merged with the program-domain encoding of the local data
/// root.
pub open spec fn program_input_spec(position: u64, local_data_root: Seq<u8>) -> Seq<Seq<u8>> {
    seq![le_bytes(position as nat, 8)] + encode_bytes(local_data_root)
}

/// Compute the verification input of a program proof.
pub fn program_input(public: &ProgramPublicVariables) -> (r: Vec<Vec<u8>>)
    ensures
        bytes_view(r@) == program_input_spec(public.position, public.local_data_root@),
{
    let mut r: Vec<Vec<u8>> = Vec::new();
    r.push(u64_le_bytes(public.position));
    proof {
        assert(bytes_view(r@) =~= seq![le_bytes(public.position as nat, 8)]);
    }
    let elements = to_field_elements(&public.local_data_root);
    let mut i: usize = 0;
    while i < elements.len()
        invariant
            i <= elements@.len(),
            bytes_view(elements@) == encode_bytes(public.local_data_root@),
            r@.len() == i + 1,
            r@[0]@ == le_bytes(public.position as nat, 8),
            forall|k: int| 0 <= k < i ==> r@[k + 1]@ == elements@[k]@,
        decreases elements@.len() - i,
    {
        r.push(bytes_clone(&elements[i]));
        i = i + 1;
    }
    proof {
        assert(bytes_view(r@) =~= program_input_spec(public.position, public.local_data_root@));
    }
    r
}

/// The placeholder public variables of a blank execution: position zero and
/// the all-zero local data root.
pub fn blank_program_public_variables() -> (r: ProgramPublicVariables)
    ensures
        r.position == 0u64,
        r.local_data_root@ == zero_digest_spec(),
{
    ProgramPublicVariables { position: 0, local_data_root: zero_digest() }
}

/// The verification input of a blank execution.
pub open spec fn blank_program_input_spec() -> Seq<Seq<u8>> {
    program_input_spec(0u64, zero_digest_spec())
}

} // verus!
