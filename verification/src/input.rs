//! Wrappers for externally supplied input values, and their conversion into
//! witness fragments keyed by the program's declared input identities.

use vstd::prelude::*;

use crate::program::{IOProfile, IdSet, WitnessID};
use crate::witness::Witness;

verus! {

/// Values for a step's public-input slots, in ascending slot order.
#[derive(Clone, Debug, PartialEq)]
pub struct PublicInput<F>(pub Vec<F>);

/// Values for a step's private-input slots, in ascending slot order.
#[derive(Clone, Debug, PartialEq)]
pub struct PrivateInput<F>(pub Vec<F>);

impl<F> From<Vec<F>> for PublicInput<F> {
    fn from(v: Vec<F>) -> PublicInput<F> {
        PublicInput(v)
    }
}

impl<F> vstd::std_specs::convert::FromSpecImpl<Vec<F>> for PublicInput<F> {
    open spec fn obeys_from_spec() -> bool {
        true
    }

    open spec fn from_spec(v: Vec<F>) -> PublicInput<F> {
        PublicInput(v)
    }
}

impl<F> From<Vec<F>> for PrivateInput<F> {
    fn from(v: Vec<F>) -> PrivateInput<F> {
        PrivateInput(v)
    }
}

impl<F> vstd::std_specs::convert::FromSpecImpl<Vec<F>> for PrivateInput<F> {
    open spec fn obeys_from_spec() -> bool {
        true
    }

    open spec fn from_spec(v: Vec<F>) -> PrivateInput<F> {
        PrivateInput(v)
    }
}

/// Takes a witness's values, in ascending slot order, as a public-input
/// vector. No specification-level value can be stated for a built vector,
/// so nothing is promised through `from_spec`.
impl<F: Copy> From<Witness<F>> for PublicInput<F> {
    fn from(witness: Witness<F>) -> (r: PublicInput<F>)
        ensures
            r.0@.len() == witness.0@.len(),
            forall|i: int| 0 <= i < witness.0@.len() ==> r.0@[i] == witness.0@[i].1,
    {
        let mut out: Vec<F> = Vec::new();
        let mut k: usize = 0;
        while k < witness.0.len()
            invariant
                0 <= k <= witness.0@.len(),
                out@.len() == k,
                forall|i: int| 0 <= i < k ==> out@[i] == witness.0@[i].1,
            decreases witness.0@.len() - k,
        {
            out.push(witness.0[k].1);
            k += 1;
        }
        PublicInput(out)
    }
}

impl<F: Copy> vstd::std_specs::convert::FromSpecImpl<Witness<F>> for PublicInput<F> {
    open spec fn obeys_from_spec() -> bool {
        false
    }

    open spec fn from_spec(witness: Witness<F>) -> PublicInput<F> {
        vstd::pervasive::arbitrary()
    }
}

/// Pairs each identity of `ids`, in order, with the value of `values` at the
/// same position, up to the shorter of the two.
fn zip_into_witness<F: Copy>(ids: &IdSet, values: &Vec<F>) -> (w: Witness<F>)
    ensures
        w.0@.len() == if ids.seq().len() <= values@.len() {
            ids.seq().len()
        } else {
            values@.len()
        },
        forall|k: int|
            0 <= k < w.0@.len() ==> w.0@[k].0 == ids.seq()[k] && w.0@[k].1 == values@[k],
        ids.wf() ==> w.wf(),
{
    let n_ids = ids.0.len();
    let n_vals = values.len();
    let n = if n_ids <= n_vals { n_ids } else { n_vals };
    let mut out: Vec<(WitnessID, F)> = Vec::new();
    let mut k: usize = 0;
    while k < n
        invariant
            0 <= k <= n,
            n <= ids.seq().len(),
            n <= values@.len(),
            n == if ids.seq().len() <= values@.len() {
                ids.seq().len()
            } else {
                values@.len()
            },
            out@.len() == k,
            forall|i: int|
                0 <= i < k ==> out@[i].0 == ids.seq()[i] && out@[i].1 == values@[i],
        decreases n - k,
    {
        out.push((ids.0[k], values[k]));
        k += 1;
    }
    proof {
        if ids.wf() {
            assert forall|i: int, j: int|
                0 <= i < j < out@.len() implies out@[i].0.0 < out@[j].0.0 by {
                assert(out@[i].0 == ids.seq()[i]);
                assert(out@[j].0 == ids.seq()[j]);
            }
        }
    }
    Witness(out)
}

impl<F: Copy> PublicInput<F> {
    /// Builds the witness fragment binding the profile's public-input
    /// identities, in ascending order, to these values.
    pub fn make_witness(&self, io: &IOProfile) -> (w: Witness<F>)
        ensures
            w.0@.len() == if io.public_inputs.seq().len() <= self.0@.len() {
                io.public_inputs.seq().len()
            } else {
                self.0@.len()
            },
            forall|k: int|
                0 <= k < w.0@.len() ==> w.0@[k].0 == io.public_inputs.seq()[k]
                    && w.0@[k].1 == self.0@[k],
            io.public_inputs.wf() ==> w.wf(),
    {
        zip_into_witness(&io.public_inputs, &self.0)
    }
}

impl<F: Copy> PrivateInput<F> {
    /// Builds the witness fragment binding the profile's private-input
    /// identities, in ascending order, to these values.
    pub fn make_witness(&self, io: &IOProfile) -> (w: Witness<F>)
        ensures
            w.0@.len() == if io.private_inputs.seq().len() <= self.0@.len() {
                io.private_inputs.seq().len()
            } else {
                self.0@.len()
            },
            forall|k: int|
                0 <= k < w.0@.len() ==> w.0@[k].0 == io.private_inputs.seq()[k]
                    && w.0@[k].1 == self.0@[k],
            io.private_inputs.wf() ==> w.wf(),
    {
        zip_into_witness(&io.private_inputs, &self.0)
    }
}

} // verus!
