//! The variable table: synthesis-time scratch state mapping witness slot
//! identities to allocated backend variable handles, with the resolution of
//! abstract linear combinations and the emission of rank-1 enforcements.

use vstd::prelude::*;

use crate::backend::{Backend, EnforcedConstraint, ResolvedConstraint, ResolvedTerm};
use crate::program::{IdSet, R1CSConstraint, Term, WitnessID, LC};
use crate::witness::{lookup_pair, seq_find, Witness};
use crate::SynthesisError;

verus! {

/// Scratch table from witness slot identity to the backend variable handle
/// allocated for it; built once per synthesis call and then discarded.
#[derive(Clone, Debug, PartialEq, Eq)]
pub struct Variables(pub Vec<(WitnessID, usize)>);

/// Resolution of one abstract term against a table: a term referencing a
/// slot resolves to that slot's variable handle; a constant term stands.
pub open spec fn resolve_term<F>(tb: Seq<(WitnessID, usize)>, t: Term<F>) -> Option<
    ResolvedTerm<F>,
> {
    match t {
        Term::LC { coefficient, var_id } => match seq_find(tb, var_id) {
            Some(h) => Some(ResolvedTerm::Var { coefficient, index: h }),
            None => None,
        },
        Term::Const(v) => Some(ResolvedTerm::Const(v)),
    }
}

/// Resolution of a term sequence, failing if any term fails.
pub open spec fn resolve_terms<F>(tb: Seq<(WitnessID, usize)>, ts: Seq<Term<F>>) -> Option<
    Seq<ResolvedTerm<F>>,
>
    decreases ts.len(),
{
    if ts.len() == 0 {
        Some(Seq::empty())
    } else {
        match (resolve_terms(tb, ts.drop_last()), resolve_term(tb, ts.last())) {
            (Some(rest), Some(last)) => Some(rest.push(last)),
            _ => None,
        }
    }
}

/// Resolution of a whole rank-1 constraint.
pub open spec fn resolve_constraint<F>(tb: Seq<(WitnessID, usize)>, c: R1CSConstraint<F>) -> Option<
    EnforcedConstraint<F>,
> {
    match (resolve_terms(tb, c.a.0@), resolve_terms(tb, c.b.0@), resolve_terms(tb, c.c.0@)) {
        (Some(a), Some(b), Some(cc)) => Some(EnforcedConstraint { a, b, c: cc }),
        _ => None,
    }
}

/// If some term of `ts` fails to resolve, the whole sequence fails.
proof fn lemma_resolve_terms_none<F>(tb: Seq<(WitnessID, usize)>, ts: Seq<Term<F>>, i: int)
    requires
        0 <= i < ts.len(),
        resolve_term(tb, ts[i]) is None,
    ensures
        resolve_terms(tb, ts) is None,
    decreases ts.len(),
{
    if i < ts.len() - 1 {
        assert(ts.drop_last()[i] == ts[i]);
        lemma_resolve_terms_none(tb, ts.drop_last(), i);
    }
}

impl Variables {
    /// The handle allocated for `id`, if any.
    pub open spec fn spec_get(&self, id: WitnessID) -> Option<usize> {
        seq_find(self.0@, id)
    }

    /// Resolves one linear combination against this table, term by term in
    /// order; fails if a referenced slot has no allocated variable.
    fn make_lc<F: Copy>(&self, lc_structure: &LC<F>) -> (r: Result<
        Vec<ResolvedTerm<F>>,
        SynthesisError,
    >)
        ensures
            match r {
                Ok(v) => resolve_terms(self.0@, lc_structure.0@) == Some(v@),
                Err(SynthesisError::Unsatisfiable) => resolve_terms(
                    self.0@,
                    lc_structure.0@,
                ) is None,
                _ => false,
            },
    {
        let mut out: Vec<ResolvedTerm<F>> = Vec::new();
        let mut k: usize = 0;
        while k < lc_structure.0.len()
            invariant
                0 <= k <= lc_structure.0@.len(),
                resolve_terms(self.0@, lc_structure.0@.take(k as int)) == Some(out@),
            decreases lc_structure.0@.len() - k,
        {
            let ghost pre = lc_structure.0@.take(k as int);
            let ghost cur = lc_structure.0@.take(k as int + 1);
            proof {
                assert(cur.drop_last() =~= pre);
                assert(cur.last() == lc_structure.0@[k as int]);
            }
            match &lc_structure.0[k] {
                Term::LC { coefficient, var_id } => {
                    match lookup_pair(&self.0, *var_id) {
                        Some(h) => {
                            out.push(ResolvedTerm::Var { coefficient: *coefficient, index: h });
                        },
                        None => {
                            proof {
                                lemma_resolve_terms_none(
                                    self.0@,
                                    lc_structure.0@,
                                    k as int,
                                );
                            }
                            return Err(SynthesisError::Unsatisfiable);
                        },
                    }
                },
                Term::Const(v) => {
                    out.push(ResolvedTerm::Const(*v));
                },
            }
            k += 1;
        }
        proof {
            assert(lc_structure.0@.take(lc_structure.0@.len() as int) =~= lc_structure.0@);
        }
        Ok(out)
    }

    /// Resolves the three combinations of `constraint` and enforces the
    /// rank-1 relation on the backend, tagged with `index`. On failure the
    /// backend is left untouched.
    pub fn add_r1cs_constraint<F: Copy, B: Backend<F>>(
        &self,
        backend: &mut B,
        index: usize,
        constraint: &R1CSConstraint<F>,
    ) -> (r: Result<(), SynthesisError>)
        ensures
            match r {
                Ok(()) => {
                    &&& resolve_constraint(self.0@, *constraint) is Some
                    &&& final(backend).enforced() == old(backend).enforced().push(
                        resolve_constraint(self.0@, *constraint).unwrap(),
                    )
                    &&& final(backend).allocated() == old(backend).allocated()
                },
                Err(SynthesisError::Unsatisfiable) => {
                    &&& resolve_constraint(self.0@, *constraint) is None
                    &&& final(backend).enforced() == old(backend).enforced()
                    &&& final(backend).allocated() == old(backend).allocated()
                },
                _ => false,
            },
    {
        let lc_a = match self.make_lc(&constraint.a) {
            Ok(v) => v,
            Err(e) => {
                return Err(e);
            },
        };
        let lc_b = match self.make_lc(&constraint.b) {
            Ok(v) => v,
            Err(e) => {
                return Err(e);
            },
        };
        let lc_c = match self.make_lc(&constraint.c) {
            Ok(v) => v,
            Err(e) => {
                return Err(e);
            },
        };
        backend.enforce(index, ResolvedConstraint { a: lc_a, b: lc_b, c: lc_c });
        Ok(())
    }

    /// Allocates one fresh backend variable for each identity of `ids`, in
    /// their stored (ascending) order, bound to the value found in `witness`
    /// at that identity. Fails with the first identity missing from the
    /// witness; variables allocated before the failure remain allocated.
    pub fn allocate_variables<F: Copy, B: Backend<F>>(
        backend: &mut B,
        ids: &IdSet,
        witness: &Witness<F>,
    ) -> (r: Result<Variables, SynthesisError>)
        ensures
            final(backend).enforced() == old(backend).enforced(),
            match r {
                Ok(vars) => {
                    &&& forall|k: int|
                        0 <= k < ids.seq().len() ==> witness.spec_get(ids.seq()[k]) is Some
                    &&& vars.0@.len() == ids.seq().len()
                    &&& forall|k: int|
                        0 <= k < ids.seq().len() ==> vars.0@[k].0 == ids.seq()[k]
                            && vars.0@[k].1 == old(backend).allocated().len() + k
                    &&& final(backend).allocated() == old(backend).allocated() + alloc_values(
                        *witness,
                        ids.seq(),
                    )
                },
                Err(SynthesisError::AssignmentMissing) => exists|j: int|
                    0 <= j < ids.seq().len() && witness.spec_get(ids.seq()[j]) is None
                        && (forall|i: int| 0 <= i < j ==> witness.spec_get(ids.seq()[i]) is Some)
                        && final(backend).allocated() == old(backend).allocated() + alloc_values(
                        *witness,
                        ids.seq().take(j),
                    ),
                _ => false,
            },
    {
        let mut out: Vec<(WitnessID, usize)> = Vec::new();
        let mut k: usize = 0;
        proof {
            assert(alloc_values(*witness, ids.seq().take(0)) =~= Seq::<F>::empty());
            assert(old(backend).allocated() + alloc_values(*witness, ids.seq().take(0))
                =~= old(backend).allocated());
        }
        while k < ids.0.len()
            invariant
                0 <= k <= ids.seq().len(),
                out@.len() == k,
                forall|i: int| 0 <= i < k ==> witness.spec_get(ids.seq()[i]) is Some,
                forall|i: int|
                    0 <= i < k ==> out@[i].0 == ids.seq()[i]
                        && out@[i].1 == old(backend).allocated().len() + i,
                backend.allocated() == old(backend).allocated() + alloc_values(
                    *witness,
                    ids.seq().take(k as int),
                ),
                backend.enforced() == old(backend).enforced(),
            decreases ids.seq().len() - k,
        {
            let id = ids.0[k];
            match witness.get(id) {
                None => {
                    return Err(SynthesisError::AssignmentMissing);
                },
                Some(value) => {
                    let h = backend.allocate(value);
                    proof {
                        assert(alloc_values(*witness, ids.seq().take(k as int)).len() == k as int);
                        assert(h == old(backend).allocated().len() + k);
                        assert(alloc_values(*witness, ids.seq().take(k as int + 1))
                            =~= alloc_values(*witness, ids.seq().take(k as int)).push(value));
                        assert(old(backend).allocated() + alloc_values(
                            *witness,
                            ids.seq().take(k as int + 1),
                        ) =~= (old(backend).allocated() + alloc_values(
                            *witness,
                            ids.seq().take(k as int),
                        )).push(value));
                    }
                    out.push((id, h));
                    proof {
                        assert forall|i: int|
                            0 <= i < k + 1 implies out@[i].0 == ids.seq()[i] && out@[i].1
                            == old(backend).allocated().len() + i by {
                            if i == k {
                                assert(out@[i] == (id, h));
                            }
                        }
                    }
                },
            }
            k += 1;
        }
        proof {
            assert(ids.seq().take(ids.seq().len() as int) =~= ids.seq());
        }
        Ok(Variables(out))
    }

    /// The handles of this table at the identities of `ids`, in their stored
    /// (ascending) order; fails if some identity has no allocated variable.
    pub fn get_ordered_subset(&self, ids: &IdSet) -> (r: Result<Vec<usize>, SynthesisError>)
        ensures
            match r {
                Ok(hs) => {
                    &&& forall|k: int|
                        0 <= k < ids.seq().len() ==> self.spec_get(ids.seq()[k]) is Some
                    &&& hs@.len() == ids.seq().len()
                    &&& forall|k: int|
                        0 <= k < ids.seq().len() ==> hs@[k] == self.spec_get(
                            ids.seq()[k],
                        ).unwrap()
                },
                Err(SynthesisError::AssignmentMissing) => exists|j: int|
                    0 <= j < ids.seq().len() && self.spec_get(ids.seq()[j]) is None,
                _ => false,
            },
    {
        let mut out: Vec<usize> = Vec::new();
        let mut k: usize = 0;
        while k < ids.0.len()
            invariant
                0 <= k <= ids.seq().len(),
                out@.len() == k,
                forall|i: int| 0 <= i < k ==> self.spec_get(ids.seq()[i]) is Some,
                forall|i: int| 0 <= i < k ==> out@[i] == self.spec_get(ids.seq()[i]).unwrap(),
            decreases ids.seq().len() - k,
        {
            match lookup_pair(&self.0, ids.0[k]) {
                None => {
                    return Err(SynthesisError::AssignmentMissing);
                },
                Some(h) => {
                    out.push(h);
                },
            }
            k += 1;
        }
        Ok(out)
    }

    /// Extends this table with the externally supplied public-input handles
    /// at their declared identities; fails if such an identity already has an
    /// allocated variable.
    pub(crate) fn with_inputs(&self, ids: &IdSet, z: &Vec<usize>) -> (r: Result<
        Variables,
        SynthesisError,
    >)
        requires
            ids.seq().len() == z@.len(),
        ensures
            match r {
                Ok(v) => {
                    &&& forall|k: int|
                        0 <= k < ids.seq().len() ==> self.spec_get(ids.seq()[k]) is None
                    &&& v.0@ == self.0@ + zip_pairs(ids.seq(), z@)
                },
                Err(SynthesisError::InputCollision) => exists|k: int|
                    0 <= k < ids.seq().len() && self.spec_get(ids.seq()[k]) is Some,
                _ => false,
            },
    {
        let mut out: Vec<(WitnessID, usize)> = Vec::new();
        let mut k: usize = 0;
        while k < self.0.len()
            invariant
                0 <= k <= self.0@.len(),
                out@ == self.0@.take(k as int),
            decreases self.0@.len() - k,
        {
            proof {
                assert(self.0@.take(k as int + 1) =~= self.0@.take(k as int).push(
                    self.0@[k as int],
                ));
            }
            out.push(self.0[k]);
            k += 1;
        }
        proof {
            assert(self.0@.take(self.0@.len() as int) =~= self.0@);
        }
        let mut j: usize = 0;
        while j < ids.0.len()
            invariant
                0 <= j <= ids.seq().len(),
                ids.seq().len() == z@.len(),
                forall|i: int| 0 <= i < j ==> self.spec_get(ids.seq()[i]) is None,
                out@ == self.0@ + zip_pairs(ids.seq().take(j as int), z@.take(j as int)),
            decreases ids.seq().len() - j,
        {
            match lookup_pair(&self.0, ids.0[j]) {
                Some(_) => {
                    return Err(SynthesisError::InputCollision);
                },
                None => {
                    proof {
                        assert(zip_pairs(
                            ids.seq().take(j as int + 1),
                            z@.take(j as int + 1),
                        ) =~= zip_pairs(ids.seq().take(j as int), z@.take(j as int)).push(
                            (ids.seq()[j as int], z@[j as int]),
                        ));
                        assert(self.0@ + zip_pairs(
                            ids.seq().take(j as int + 1),
                            z@.take(j as int + 1),
                        ) =~= (self.0@ + zip_pairs(
                            ids.seq().take(j as int),
                            z@.take(j as int),
                        )).push((ids.seq()[j as int], z@[j as int])));
                    }
                    out.push((ids.0[j], z[j]));
                },
            }
            j += 1;
        }
        proof {
            assert(ids.seq().take(ids.seq().len() as int) =~= ids.seq());
            assert(z@.take(z@.len() as int) =~= z@);
        }
        Ok(Variables(out))
    }
}

/// The witness values at `ids`, in order.
pub open spec fn alloc_values<F>(w: Witness<F>, ids: Seq<WitnessID>) -> Seq<F> {
    Seq::new(ids.len(), |k: int| w.spec_get(ids[k]).unwrap())
}

/// Pairs each identity with the handle at the same position.
pub open spec fn zip_pairs(ids: Seq<WitnessID>, z: Seq<usize>) -> Seq<(WitnessID, usize)> {
    Seq::new(ids.len(), |k: int| (ids[k], z[k]))
}

} // verus!
