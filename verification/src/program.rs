//! The program model: witness slot identities, linear combinations,
//! rank-1 constraints, the input/output role partition, and the immutable
//! description of one circuit step.

use vstd::prelude::*;

verus! {

/// Identity of one witness slot within a single step's program. Ordering is
/// used only to fix a deterministic enumeration order, never for meaning.
#[derive(Clone, Copy, Debug, PartialEq, Eq, PartialOrd, Ord, Hash, Structural)]
pub struct WitnessID(pub u32);

impl From<u32> for WitnessID {
    fn from(value: u32) -> WitnessID {
        WitnessID(value)
    }
}

impl vstd::std_specs::convert::FromSpecImpl<u32> for WitnessID {
    open spec fn obeys_from_spec() -> bool {
        true
    }

    open spec fn from_spec(value: u32) -> WitnessID {
        WitnessID(value)
    }
}

/// An ordered set of witness slot identities, held as a vector in strictly
/// ascending order (so it is duplicate-free and enumerates deterministically).
#[derive(Clone, Debug, PartialEq, Eq)]
pub struct IdSet(pub Vec<WitnessID>);

impl IdSet {
    /// The identities, in their stored order.
    pub open spec fn seq(&self) -> Seq<WitnessID> {
        self.0@
    }

    /// Well-formed: strictly ascending.
    pub open spec fn wf(&self) -> bool {
        forall|i: int, j: int|
            0 <= i < j < self.0@.len() ==> self.0@[i].0 < self.0@[j].0
    }

    /// Membership of `id` in the set.
    pub open spec fn has(&self, id: WitnessID) -> bool {
        exists|i: int| 0 <= i < self.0@.len() && self.0@[i] == id
    }

    /// Number of identities in the set.
    pub fn len(&self) -> (n: usize)
        ensures
            n == self.seq().len(),
    {
        self.0.len()
    }

    /// Whether `id` is one of the identities.
    pub fn contains(&self, id: WitnessID) -> (r: bool)
        ensures
            r == self.has(id),
    {
        let mut k: usize = 0;
        while k < self.0.len()
            invariant
                0 <= k <= self.0@.len(),
                forall|i: int| 0 <= i < k ==> self.0@[i] != id,
            decreases self.0@.len() - k,
        {
            if self.0[k] == id {
                return true;
            }
            k += 1;
        }
        false
    }
}

/// Whether some identity of `a` also occurs in `b`.
pub open spec fn overlaps(a: IdSet, b: IdSet) -> bool {
    exists|i: int| 0 <= i < a.seq().len() && b.has(a.seq()[i])
}

/// Whether any identity occurs in two of the four role sets of `io`.
pub open spec fn any_overlap(io: IOProfile) -> bool {
    ||| overlaps(io.public_inputs, io.private_inputs)
    ||| overlaps(io.public_inputs, io.public_outputs)
    ||| overlaps(io.public_inputs, io.private_outputs)
    ||| overlaps(io.private_inputs, io.public_outputs)
    ||| overlaps(io.private_inputs, io.private_outputs)
    ||| overlaps(io.public_outputs, io.private_outputs)
}

/// Whether `a` and `b` share an identity.
fn overlap_exists(a: &IdSet, b: &IdSet) -> (r: bool)
    ensures
        r == overlaps(*a, *b),
{
    let mut k: usize = 0;
    while k < a.0.len()
        invariant
            0 <= k <= a.0@.len(),
            forall|i: int| 0 <= i < k ==> !b.has(a.seq()[i]),
        decreases a.0@.len() - k,
    {
        if b.contains(a.0[k]) {
            proof {
                assert(b.has(a.seq()[k as int]));
            }
            return true;
        }
        k += 1;
    }
    false
}

/// One term of a linear combination: either `coefficient` times the value of
/// the slot `var_id`, or a fixed scalar contribution.
#[derive(Clone, Copy, Debug, PartialEq)]
pub enum Term<F> {
    LC { coefficient: F, var_id: WitnessID },
    Const(F),
}

/// A linear combination: an ordered sequence of terms summed together; the
/// empty sequence is the zero combination.
#[derive(Clone, Debug, PartialEq)]
pub struct LC<F>(pub Vec<Term<F>>);

/// A rank-1 constraint asserting `a * b = c` over the field.
#[derive(Clone, Debug, PartialEq)]
pub struct R1CSConstraint<F> {
    pub a: LC<F>,
    pub b: LC<F>,
    pub c: LC<F>,
}

/// The four-way role partition of a program's witness slots. The four sets
/// must be pairwise disjoint, and the public-input and public-output sets
/// must have equal cardinality; `check_structure` validates both.
#[derive(Clone, Debug, PartialEq, Eq)]
pub struct IOProfile {
    pub public_inputs: IdSet,
    pub private_inputs: IdSet,
    pub public_outputs: IdSet,
    pub private_outputs: IdSet,
}

/// An immutable description of one circuit step.
#[derive(Clone, Debug, PartialEq)]
pub struct IVCProgram<F> {
    pub io: IOProfile,
    /// Total number of witness slots; every referenced identity must lie in
    /// `[0, num_witness)`.
    pub num_witness: u32,
    /// The constraints, in the order they are enforced.
    pub r1cs_constraints: Vec<R1CSConstraint<F>>,
    /// Identifier of the target field/curve.
    pub curve: String,
    /// Format version string.
    pub version: String,
}

/// Structural defects of a program's input/output profile.
#[derive(Clone, Copy, Debug, PartialEq, Eq, Structural)]
pub enum MalformedProgramError {
    /// Carries the public-input and public-output cardinalities, which differ.
    UnequalPublicInputsOutputs(usize, usize),
    /// Some witness slot plays two roles.
    OverlapWitness,
}

impl IOProfile {
    /// All four role sets are strictly ascending.
    pub open spec fn wf(&self) -> bool {
        &&& self.public_inputs.wf()
        &&& self.private_inputs.wf()
        &&& self.public_outputs.wf()
        &&& self.private_outputs.wf()
    }

    /// Validates the profile invariants: equal public input/output
    /// cardinality, and pairwise disjointness of the four role sets. A
    /// program failing this check must never reach the interpreter.
    pub fn check_structure(&self) -> (r: Result<(), MalformedProgramError>)
        ensures
            match r {
                Ok(()) => self.public_inputs.seq().len() == self.public_outputs.seq().len()
                    && !any_overlap(*self),
                Err(MalformedProgramError::UnequalPublicInputsOutputs(n_in, n_out)) => {
                    &&& n_in == self.public_inputs.seq().len()
                    &&& n_out == self.public_outputs.seq().len()
                    &&& n_in != n_out
                },
                Err(MalformedProgramError::OverlapWitness) => {
                    &&& self.public_inputs.seq().len() == self.public_outputs.seq().len()
                    &&& any_overlap(*self)
                },
            },
    {
        let n_in = self.public_inputs.len();
        let n_out = self.public_outputs.len();
        if n_in != n_out {
            return Err(MalformedProgramError::UnequalPublicInputsOutputs(n_in, n_out));
        }

        let a = &self.public_inputs;
        let b = &self.private_inputs;
        let c = &self.public_outputs;
        let d = &self.private_outputs;

        if overlap_exists(a, b) || overlap_exists(a, c) || overlap_exists(a, d)
            || overlap_exists(b, c) || overlap_exists(b, d) || overlap_exists(c, d)
        {
            return Err(MalformedProgramError::OverlapWitness);
        }

        Ok(())
    }
}

impl<F: crate::field::FieldValue> IVCProgram<F> {
    /// A witness template mapping every slot in `[0, num_witness)` to the
    /// field's additive identity, for callers building a witness
    /// incrementally.
    pub fn make_empty_witness(&self) -> (w: crate::witness::Witness<F>)
        ensures
            w.0@.len() == self.num_witness,
            forall|i: int|
                0 <= i < self.num_witness ==> w.0@[i].0 == WitnessID(i as u32)
                    && w.0@[i].1 == F::zero_spec(),
            w.wf(),
    {
        let mut out: Vec<(WitnessID, F)> = Vec::new();
        let mut i: u32 = 0;
        while i < self.num_witness
            invariant
                0 <= i <= self.num_witness,
                out@.len() == i,
                forall|j: int|
                    0 <= j < i ==> out@[j].0 == WitnessID(j as u32)
                        && out@[j].1 == F::zero_spec(),
            decreases self.num_witness - i,
        {
            out.push((WitnessID(i), F::zero_value()));
            i += 1;
        }
        crate::witness::Witness(out)
    }
}

/// The characters of `s` after lower-casing.
pub uninterp spec fn lower_of(s: Seq<char>) -> Seq<char>;

/// Relies on str::to_lowercase; the result depends on the characters alone.
#[verifier::external_body]
fn lowercase(s: &str) -> (r: String)
    ensures
        r@ == lower_of(s@),
{
    s.to_lowercase()
}

/// The lower-cased label of the field type `F`, used to tag a program with
/// its target field. The label itself is the field type's business, so
/// nothing is promised of the result.
pub fn get_curve_name<F: crate::field::FieldValue>() -> String {
    let label = F::type_label();
    lowercase(label.as_str())
}

} // verus!
