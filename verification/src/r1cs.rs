//! The constraint-system accumulator the outer circuit populates.
//!
//! Synthesis is modelled at the level of satisfiability: the accumulator
//! starts satisfiable, every enforced check conjoins its condition, and the
//! public-input slots allocated so far are recorded in order. A populated
//! accumulator is satisfiable exactly when every enforced check held.

use vstd::prelude::*;
use crate::bytes::{bytes_eq, bytes_seq_eq, bytes_view};
use crate::snark::{snark_verifies, Commitment, Proof, VerifyingKey};

verus! {

/// Abort of a synthesis run: a required witness value was structurally
/// absent when the routine tried to bind it as a circuit variable.
#[derive(Clone, Copy, PartialEq, Eq, Structural, Debug)]
pub enum SynthesisError {
    /// A mandatory assignment was not supplied.
    AssignmentMissing,
}

/// The mathematical content of an accumulator.
pub struct ConstraintAccumulatorView {
    /// Whether every check enforced so far holds.
    pub satisfied: bool,
    /// The public-input slots allocated so far, in allocation order.
    pub public_inputs: Seq<Seq<u8>>,
}

/// A constraint-system accumulator, exclusively owned by one synthesis run.
pub struct ConstraintAccumulator {
    satisfied: bool,
    public_inputs: Vec<Vec<u8>>,
}

impl View for ConstraintAccumulator {
    type V = ConstraintAccumulatorView;

    closed spec fn view(&self) -> ConstraintAccumulatorView {
        ConstraintAccumulatorView {
            satisfied: self.satisfied,
            public_inputs: bytes_view(self.public_inputs@),
        }
    }
}

impl ConstraintAccumulator {
    /// A fresh accumulator: satisfiable, with no public-input slot.
    pub fn new() -> (r: ConstraintAccumulator)
        ensures
            r@.satisfied,
            r@.public_inputs == Seq::<Seq<u8>>::empty(),
    {
        let r = ConstraintAccumulator { satisfied: true, public_inputs: Vec::new() };
        proof {
            assert(r@.public_inputs =~= Seq::<Seq<u8>>::empty());
        }
        r
    }

    /// Whether the populated system has a satisfying assignment.
    pub fn is_satisfiable(&self) -> (r: bool)
        ensures
            r == self@.satisfied,
    {
        self.satisfied
    }

    /// The number of public-input slots allocated.
    pub fn num_public_inputs(&self) -> (r: usize)
        ensures
            r == self@.public_inputs.len(),
    {
        self.public_inputs.len()
    }

    /// Allocate one element as a distinct public-input slot.
    pub fn alloc_input_element(&mut self, element: &Vec<u8>)
        ensures
            final(self)@.satisfied == old(self)@.satisfied,
            final(self)@.public_inputs == old(self)@.public_inputs.push(element@),
    {
        self.public_inputs.push(crate::bytes::bytes_clone(element));
        proof {
            assert(final(self)@.public_inputs =~= old(self)@.public_inputs.push(element@));
        }
    }

    /// Enforce bit-level equality of two allocated values.
    pub fn enforce_equal_bytes(&mut self, a: &Vec<u8>, b: &Vec<u8>)
        ensures
            final(self)@.public_inputs == old(self)@.public_inputs,
            final(self)@.satisfied == (old(self)@.satisfied && a@ == b@),
    {
        let equal = bytes_eq(a, b);
        self.satisfied = self.satisfied && equal;
    }

    /// Enforce bit-level equality of two allocated element sequences.
    pub fn enforce_equal_elements(&mut self, a: &Vec<Vec<u8>>, b: &Vec<Vec<u8>>)
        ensures
            final(self)@.public_inputs == old(self)@.public_inputs,
            final(self)@.satisfied == (old(self)@.satisfied && bytes_view(a@) == bytes_view(b@)),
    {
        let equal = bytes_seq_eq(a, b);
        self.satisfied = self.satisfied && equal;
    }

    /// Enforce equality of two allocated commitment values.
    pub fn enforce_equal_commitments(&mut self, a: &Commitment, b: &Commitment)
        ensures
            final(self)@.public_inputs == old(self)@.public_inputs,
            final(self)@.satisfied == (old(self)@.satisfied && a@ == b@),
    {
        let equal = a.equals(b);
        self.satisfied = self.satisfied && equal;
    }

    /// Enforce the verification predicate of a proof system on an allocated
    /// (key, input, proof) triple.
    pub fn enforce_snark_verifies(
        &mut self,
        key: &VerifyingKey,
        input: &Vec<Vec<u8>>,
        proof: &Proof,
    )
        ensures
            final(self)@.public_inputs == old(self)@.public_inputs,
            final(self)@.satisfied == (old(self)@.satisfied && snark_verifies(
                key@,
                bytes_view(input@),
                proof@,
            )),
    {
        let holds = proof.check(key, input);
        self.satisfied = self.satisfied && holds;
    }
}

} // verus!
