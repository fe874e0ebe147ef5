//! The Arithmetization Interpreter and the Step Driver: allocates variables
//! for one step, materializes each abstract constraint as a concrete rank-1
//! enforcement on the backend, produces the step's ordered public-output
//! variables, and re-checks the produced outputs against the witness.

use vstd::prelude::*;

use crate::backend::{Backend, EnforcedConstraint};
use crate::field::FieldValue;
use crate::program::{IVCProgram, IdSet, Term, WitnessID};
use crate::variables::{
    alloc_values, resolve_constraint, resolve_terms, zip_pairs, Variables,
};
use crate::witness::{
    keys_distinct, lemma_seq_find_absent, lemma_seq_find_append, lemma_seq_find_at,
    lemma_seq_find_present, lemma_seq_find_witness, seq_find, Witness,
};
use crate::{Step, SynthesisError};

verus! {

/// The witness assigns exactly the slots `{0 .. n}`, in ascending order.
pub open spec fn witness_exact<F>(w: Witness<F>, n: u32) -> bool {
    &&& w.0@.len() == n
    &&& forall|i: int| 0 <= i < n ==> w.0@[i].0 == WitnessID(i as u32)
}

/// The slot identities below `k` that are not public inputs, ascending:
/// the slots the interpreter allocates fresh variables for.
pub open spec fn fresh_ids_upto(pi: IdSet, k: nat) -> Seq<WitnessID>
    decreases k,
{
    if k == 0 {
        Seq::empty()
    } else {
        let rest = fresh_ids_upto(pi, (k - 1) as nat);
        let id = WitnessID((k - 1) as u32);
        if pi.has(id) {
            rest
        } else {
            rest.push(id)
        }
    }
}

/// Shape of the fresh-slot enumeration: every entry is a non-public-input
/// slot below `k`, entries ascend, and every such slot occurs.
pub proof fn lemma_fresh_ids_shape(pi: IdSet, k: nat)
    requires
        k <= u32::MAX,
    ensures
        forall|i: int|
            0 <= i < fresh_ids_upto(pi, k).len() ==> (#[trigger] fresh_ids_upto(pi, k)[i]).0 < k
                && !pi.has(fresh_ids_upto(pi, k)[i]),
        forall|i: int, j: int|
            0 <= i < j < fresh_ids_upto(pi, k).len() ==> fresh_ids_upto(pi, k)[i].0
                < fresh_ids_upto(pi, k)[j].0,
        forall|id: WitnessID|
            id.0 < k && !pi.has(id) ==> fresh_ids_upto(pi, k).contains(id),
    decreases k,
{
    if k > 0 {
        lemma_fresh_ids_shape(pi, (k - 1) as nat);
        let rest = fresh_ids_upto(pi, (k - 1) as nat);
        let id = WitnessID((k - 1) as u32);
        let cur = fresh_ids_upto(pi, k);
        if !pi.has(id) {
            assert(cur == rest.push(id));
            assert forall|x: WitnessID| x.0 < k && !pi.has(x) implies cur.contains(x) by {
                if x.0 < k - 1 {
                    assert(rest.contains(x));
                    let i = choose|i: int| 0 <= i < rest.len() && rest[i] == x;
                    assert(cur[i] == x);
                } else {
                    assert(x == id);
                    assert(cur[rest.len() as int] == id);
                }
            }
        } else {
            assert forall|x: WitnessID| x.0 < k && !pi.has(x) implies cur.contains(x) by {
                assert(x.0 < k - 1);
                assert(rest.contains(x));
            }
        }
    }
}

/// The table a synthesis run builds: the fresh slots bound to dense handles
/// from `base`, followed by the declared public inputs bound to the supplied
/// handles.
pub open spec fn fresh_handle_pairs(pi: IdSet, n: u32, base: nat) -> Seq<(WitnessID, usize)> {
    Seq::new(
        fresh_ids_upto(pi, n as nat).len(),
        |i: int| (fresh_ids_upto(pi, n as nat)[i], (base + i) as usize),
    )
}

/// The variable table of a synthesis run, as a function of the program's
/// public-input set and total slot count, the supplied input handles, and
/// the number of variables the backend had already allocated.
pub open spec fn table_pairs(pi: IdSet, n: u32, z: Seq<usize>, base: nat) -> Seq<
    (WitnessID, usize),
> {
    fresh_handle_pairs(pi, n, base) + zip_pairs(pi.seq(), z)
}

/// The values the interpreter binds to freshly allocated variables, in
/// allocation order.
pub open spec fn spec_fresh_values<F>(p: IVCProgram<F>, w: Witness<F>) -> Seq<F> {
    alloc_values(w, fresh_ids_upto(p.io.public_inputs, p.num_witness as nat))
}

/// The first `j` rank-1 relations a synthesis run enforces.
pub open spec fn spec_emitted_upto<F>(
    p: IVCProgram<F>,
    tb: Seq<(WitnessID, usize)>,
    j: nat,
) -> Seq<EnforcedConstraint<F>> {
    Seq::new(j, |i: int| resolve_constraint(tb, p.r1cs_constraints@[i]).unwrap())
}

/// Every rank-1 relation a synthesis run enforces, in program order.
pub open spec fn spec_emitted<F>(p: IVCProgram<F>, tb: Seq<(WitnessID, usize)>) -> Seq<
    EnforcedConstraint<F>,
> {
    spec_emitted_upto(p, tb, p.r1cs_constraints@.len())
}

/// The step's output variables: the handles at the public-output
/// identities, in ascending-identity order.
pub open spec fn spec_outputs<F>(p: IVCProgram<F>, tb: Seq<(WitnessID, usize)>) -> Seq<usize> {
    Seq::new(
        p.io.public_outputs.seq().len(),
        |k: int| seq_find(tb, p.io.public_outputs.seq()[k]).unwrap(),
    )
}

/// The conditions under which a synthesis run succeeds: the witness covers
/// exactly the program's slots, the supplied handles match the declared
/// public-input arity, every constraint resolves against the table, and
/// every public output has a variable.
pub open spec fn synth_conditions<F>(
    p: IVCProgram<F>,
    w: Witness<F>,
    z: Seq<usize>,
    base: nat,
) -> bool {
    let tb = table_pairs(p.io.public_inputs, p.num_witness, z, base);
    &&& witness_exact(w, p.num_witness)
    &&& z.len() == p.io.public_inputs.seq().len()
    &&& forall|i: int|
        0 <= i < p.r1cs_constraints@.len() ==> resolve_constraint(
            tb,
            #[trigger] p.r1cs_constraints@[i],
        ) is Some
    &&& forall|k: int|
        0 <= k < p.io.public_outputs.seq().len() ==> seq_find(
            tb,
            #[trigger] p.io.public_outputs.seq()[k],
        ) is Some
}

/// Full characterization of a successful synthesis run as a function of the
/// program, the witness, the supplied handles and the prior backend state:
/// what is allocated, what is enforced, and which handles come out.
pub open spec fn synthesis_ok<F>(
    p: IVCProgram<F>,
    w: Witness<F>,
    z: Seq<usize>,
    pre_alloc: Seq<F>,
    pre_enf: Seq<EnforcedConstraint<F>>,
    post_alloc: Seq<F>,
    post_enf: Seq<EnforcedConstraint<F>>,
    outs: Seq<usize>,
) -> bool {
    let tb = table_pairs(p.io.public_inputs, p.num_witness, z, pre_alloc.len());
    &&& synth_conditions(p, w, z, pre_alloc.len())
    &&& spec_fresh_values(p, w).len() > 0 ==> pre_alloc.len() + spec_fresh_values(p, w).len()
        <= usize::MAX + 1
    &&& post_alloc == pre_alloc + spec_fresh_values(p, w)
    &&& post_enf == pre_enf + spec_emitted(p, tb)
    &&& outs == spec_outputs(p, tb)
}

/// A slot has a variable in the table exactly when it is one of the
/// program's slots or a declared public input.
pub proof fn lemma_table_available(pi: IdSet, n: u32, z: Seq<usize>, base: nat, id: WitnessID)
    requires
        z.len() == pi.seq().len(),
    ensures
        seq_find(table_pairs(pi, n, z, base), id) is Some <==> (id.0 < n || pi.has(id)),
{
    lemma_fresh_ids_shape(pi, n as nat);
    let gf = fresh_ids_upto(pi, n as nat);
    let fhp = fresh_handle_pairs(pi, n, base);
    let zp = zip_pairs(pi.seq(), z);
    lemma_seq_find_append(fhp, zp, id);
    if id.0 < n && !pi.has(id) {
        assert(gf.contains(id));
        let i = choose|i: int| 0 <= i < gf.len() && gf[i] == id;
        assert(fhp[i].0 == id);
        lemma_seq_find_present(fhp, id);
    }
    if pi.has(id) {
        if seq_find(fhp, id) is None {
            let k = choose|k: int| 0 <= k < pi.seq().len() && pi.seq()[k] == id;
            assert(zp[k].0 == id);
            lemma_seq_find_present(zp, id);
        }
    }
    if seq_find(table_pairs(pi, n, z, base), id) is Some {
        if seq_find(fhp, id) is Some {
            lemma_seq_find_witness(fhp, id);
            let t = choose|t: int| 0 <= t < fhp.len() && fhp[t].0 == id && fhp[t].1 == seq_find(
                fhp,
                id,
            ).unwrap();
            assert(gf[t] == id);
        } else {
            lemma_seq_find_witness(zp, id);
            let t = choose|t: int| 0 <= t < zp.len() && zp[t].0 == id && zp[t].1 == seq_find(
                zp,
                id,
            ).unwrap();
            assert(pi.seq()[t] == id);
            assert(pi.has(id));
        }
    }
}

/// No term of `ts` references a slot at or above `n`.
pub open spec fn lc_ids_in_range<F>(ts: Seq<Term<F>>, n: u32) -> bool {
    forall|t: int|
        0 <= t < ts.len() ==> match #[trigger] ts[t] {
            Term::LC { coefficient: _, var_id } => var_id.0 < n,
            Term::Const(_) => true,
        }
}

/// Every identity the program references lies in `[0, num_witness)`.
pub open spec fn program_in_range<F>(p: IVCProgram<F>) -> bool {
    &&& forall|i: int|
        0 <= i < p.r1cs_constraints@.len() ==> lc_ids_in_range(
            (#[trigger] p.r1cs_constraints@[i]).a.0@,
            p.num_witness,
        ) && lc_ids_in_range(p.r1cs_constraints@[i].b.0@, p.num_witness) && lc_ids_in_range(
            p.r1cs_constraints@[i].c.0@,
            p.num_witness,
        )
    &&& forall|k: int|
        0 <= k < p.io.public_outputs.seq().len() ==> (#[trigger] p.io.public_outputs.seq()[k]).0
            < p.num_witness
}

/// A combination whose slots are all in range resolves against the table.
proof fn lemma_resolve_terms_total<F>(pi: IdSet, n: u32, z: Seq<usize>, base: nat, ts: Seq<Term<F>>)
    requires
        z.len() == pi.seq().len(),
        lc_ids_in_range(ts, n),
    ensures
        resolve_terms(table_pairs(pi, n, z, base), ts) is Some,
    decreases ts.len(),
{
    if ts.len() > 0 {
        assert(forall|t: int| 0 <= t < ts.drop_last().len() ==> ts.drop_last()[t] == ts[t]);
        lemma_resolve_terms_total(pi, n, z, base, ts.drop_last());
        match ts.last() {
            Term::LC { coefficient: _, var_id } => {
                lemma_table_available(pi, n, z, base, var_id);
            },
            Term::Const(_) => {},
        }
    }
}

/// Totality of synthesis: for every program whose referenced identities are
/// in range, every witness covering exactly the program's slots, and every
/// supplied input vector of the declared arity, the synthesis conditions
/// hold, so a run returns `Ok` with exactly one output handle per declared
/// public output.
pub proof fn lemma_synthesis_total<F>(p: IVCProgram<F>, w: Witness<F>, z: Seq<usize>, base: nat)
    requires
        program_in_range(p),
        witness_exact(w, p.num_witness),
        z.len() == p.io.public_inputs.seq().len(),
    ensures
        synth_conditions(p, w, z, base),
{
    let pi = p.io.public_inputs;
    let n = p.num_witness;
    let tb = table_pairs(pi, n, z, base);
    assert forall|i: int|
        0 <= i < p.r1cs_constraints@.len() implies resolve_constraint(
        tb,
        #[trigger] p.r1cs_constraints@[i],
    ) is Some by {
        lemma_resolve_terms_total(pi, n, z, base, p.r1cs_constraints@[i].a.0@);
        lemma_resolve_terms_total(pi, n, z, base, p.r1cs_constraints@[i].b.0@);
        lemma_resolve_terms_total(pi, n, z, base, p.r1cs_constraints@[i].c.0@);
    }
    assert forall|k: int|
        0 <= k < p.io.public_outputs.seq().len() implies seq_find(
        tb,
        #[trigger] p.io.public_outputs.seq()[k],
    ) is Some by {
        lemma_table_available(pi, n, z, base, p.io.public_outputs.seq()[k]);
    }
}

/// Determinism of synthesis: two successful runs on the same program,
/// witness and public-input handles, starting from backends with equally
/// many allocated variables, bind the same values in the same order, enforce
/// structurally identical rank-1 relations in the same order, and produce
/// identical output handles.
pub proof fn lemma_synthesize_deterministic<F>(
    p: IVCProgram<F>,
    w: Witness<F>,
    z: Seq<usize>,
    a1: Seq<F>,
    e1: Seq<EnforcedConstraint<F>>,
    a1_post: Seq<F>,
    e1_post: Seq<EnforcedConstraint<F>>,
    o1: Seq<usize>,
    a2: Seq<F>,
    e2: Seq<EnforcedConstraint<F>>,
    a2_post: Seq<F>,
    e2_post: Seq<EnforcedConstraint<F>>,
    o2: Seq<usize>,
)
    requires
        synthesis_ok(p, w, z, a1, e1, a1_post, e1_post, o1),
        synthesis_ok(p, w, z, a2, e2, a2_post, e2_post, o2),
        a1.len() == a2.len(),
    ensures
        o1 == o2,
        a1_post.skip(a1.len() as int) == a2_post.skip(a2.len() as int),
        e1_post.skip(e1.len() as int) == e2_post.skip(e2.len() as int),
{
    let tb = table_pairs(p.io.public_inputs, p.num_witness, z, a1.len());
    assert(a1_post.skip(a1.len() as int) =~= spec_fresh_values(p, w));
    assert(a2_post.skip(a2.len() as int) =~= spec_fresh_values(p, w));
    assert(e1_post.skip(e1.len() as int) =~= spec_emitted(p, tb));
    assert(e2_post.skip(e2.len() as int) =~= spec_emitted(p, tb));
}

/// An exact witness holds a value for every slot below `n`.
proof fn lemma_exact_get<F>(w: Witness<F>, n: u32, id: WitnessID)
    requires
        witness_exact(w, n),
        id.0 < n,
    ensures
        w.spec_get(id) == Some(w.0@[id.0 as int].1),
{
    assert forall|i: int, j: int|
        0 <= i < j < w.0@.len() implies w.0@[i].0 != w.0@[j].0 by {
        assert(w.0@[i].0 == WitnessID(i as u32));
        assert(w.0@[j].0 == WitnessID(j as u32));
    }
    assert(keys_distinct(w.0@));
    assert(w.0@[id.0 as int].0 == id);
    lemma_seq_find_at(w.0@, id.0 as int);
}

impl<F: Copy> Step<F> {
    /// The step's arity: its number of declared public inputs (equal, for a
    /// well-formed program, to its number of public outputs).
    pub fn arity(&self) -> (n: usize)
        ensures
            n == self.program.io.public_inputs.seq().len(),
    {
        self.program.io.public_inputs.len()
    }

    /// The Arithmetization Interpreter. Allocates a fresh backend variable
    /// for every slot that is not a declared public input (ascending order),
    /// merges the supplied public-input handles `z` at their declared
    /// identities, materializes every constraint as a rank-1 enforcement in
    /// program order, and returns the public-output handles in ascending
    /// identity order.
    pub fn synthesize<B: Backend<F>>(&self, backend: &mut B, z: &Vec<usize>) -> (r: Result<
        Vec<usize>,
        SynthesisError,
    >)
        requires
            self.program.io.wf(),
            self.witness.wf(),
        ensures
            match r {
                Ok(outs) => synthesis_ok(
                    self.program,
                    self.witness,
                    z@,
                    old(backend).allocated(),
                    old(backend).enforced(),
                    final(backend).allocated(),
                    final(backend).enforced(),
                    outs@,
                ),
                Err(e) => {
                    let tb = table_pairs(
                        self.program.io.public_inputs,
                        self.program.num_witness,
                        z@,
                        old(backend).allocated().len(),
                    );
                    &&& !synth_conditions(
                        self.program,
                        self.witness,
                        z@,
                        old(backend).allocated().len(),
                    )
                    &&& match e {
                        SynthesisError::WitnessKeysMismatch => {
                            &&& !witness_exact(self.witness, self.program.num_witness)
                            &&& final(backend).allocated() == old(backend).allocated()
                            &&& final(backend).enforced() == old(backend).enforced()
                        },
                        SynthesisError::InputCountMismatch => {
                            &&& witness_exact(self.witness, self.program.num_witness)
                            &&& z@.len() != self.program.io.public_inputs.seq().len()
                            &&& final(backend).allocated() == old(backend).allocated()
                            &&& final(backend).enforced() == old(backend).enforced()
                        },
                        SynthesisError::Unsatisfiable => {
                            &&& witness_exact(self.witness, self.program.num_witness)
                            &&& z@.len() == self.program.io.public_inputs.seq().len()
                            &&& exists|i: int|
                                0 <= i < self.program.r1cs_constraints@.len()
                                    && resolve_constraint(
                                    tb,
                                    #[trigger] self.program.r1cs_constraints@[i],
                                ) is None
                            &&& final(backend).allocated() == old(backend).allocated()
                                + spec_fresh_values(self.program, self.witness)
                            &&& exists|j: nat|
                                j <= self.program.r1cs_constraints@.len()
                                    && final(backend).enforced() == old(backend).enforced()
                                    + #[trigger] spec_emitted_upto(self.program, tb, j)
                        },
                        SynthesisError::AssignmentMissing => {
                            &&& witness_exact(self.witness, self.program.num_witness)
                            &&& z@.len() == self.program.io.public_inputs.seq().len()
                            &&& exists|k: int|
                                0 <= k < self.program.io.public_outputs.seq().len()
                                    && seq_find(
                                    tb,
                                    #[trigger] self.program.io.public_outputs.seq()[k],
                                ) is None
                            &&& final(backend).allocated() == old(backend).allocated()
                                + spec_fresh_values(self.program, self.witness)
                            &&& final(backend).enforced() == old(backend).enforced()
                                + spec_emitted(self.program, tb)
                        },
                        _ => false,
                    }
                },
            },
    {
        let n = self.program.num_witness;

        // 1. The witness key set must be exactly {0 .. num_witness}; any
        // mismatch means program and witness were not produced together.
        if self.witness.0.len() != n as usize {
            return Err(SynthesisError::WitnessKeysMismatch);
        }
        let mut i: usize = 0;
        while i < self.witness.0.len()
            invariant
                self.witness.0@.len() == n,
                0 <= i <= n,
                forall|j: int| 0 <= j < i ==> self.witness.0@[j].0 == WitnessID(j as u32),
            decreases n - i,
        {
            if self.witness.0[i].0.0 != i as u32 {
                proof {
                    assert(self.witness.0@[i as int].0 != WitnessID(i as u32));
                }
                return Err(SynthesisError::WitnessKeysMismatch);
            }
            i += 1;
        }
        proof {
            assert(witness_exact(self.witness, n));
        }

        // 2. The supplied input vector must match the declared arity.
        if z.len() != self.program.io.public_inputs.len() {
            return Err(SynthesisError::InputCountMismatch);
        }

        // 3. Allocate fresh variables for every non-public-input slot, in
        // ascending identity order.
        let mut fresh_vec: Vec<WitnessID> = Vec::new();
        let mut w: u32 = 0;
        while w < n
            invariant
                0 <= w <= n,
                fresh_vec@ == fresh_ids_upto(self.program.io.public_inputs, w as nat),
            decreases n - w,
        {
            if !self.program.io.public_inputs.contains(WitnessID(w)) {
                fresh_vec.push(WitnessID(w));
            }
            w += 1;
        }
        let fresh = IdSet(fresh_vec);
        let ghost gfresh = fresh_ids_upto(self.program.io.public_inputs, n as nat);
        proof {
            lemma_fresh_ids_shape(self.program.io.public_inputs, n as nat);
        }

        let ghost base = backend.allocated().len();
        let vars = match Variables::allocate_variables(backend, &fresh, &self.witness) {
            Ok(v) => v,
            Err(e) => {
                proof {
                    // Impossible: every fresh slot is below n, and an exact
                    // witness assigns every such slot.
                    let j = choose|j: int|
                        0 <= j < fresh.seq().len() && self.witness.spec_get(
                            fresh.seq()[j],
                        ) is None && (forall|i2: int|
                            0 <= i2 < j ==> self.witness.spec_get(fresh.seq()[i2]) is Some)
                            && final(backend).allocated() == old(backend).allocated()
                            + alloc_values(self.witness, fresh.seq().take(j));
                    lemma_exact_get(self.witness, n, fresh.seq()[j]);
                    assert(false);
                }
                return Err(e);
            },
        };

        // 4. Merge the supplied public-input variables at their declared
        // identities.
        let vars2 = match vars.with_inputs(&self.program.io.public_inputs, z) {
            Ok(v) => v,
            Err(e) => {
                proof {
                    // Impossible: the fresh table holds no public-input
                    // identity.
                    let k = choose|k: int|
                        0 <= k < self.program.io.public_inputs.seq().len() && vars.spec_get(
                            self.program.io.public_inputs.seq()[k],
                        ) is Some;
                    let id = self.program.io.public_inputs.seq()[k];
                    assert(self.program.io.public_inputs.has(id));
                    assert forall|t: int| 0 <= t < vars.0@.len() implies vars.0@[t].0 != id by {
                        assert(vars.0@[t].0 == gfresh[t]);
                        assert(!self.program.io.public_inputs.has(gfresh[t]));
                    }
                    lemma_seq_find_absent(vars.0@, id);
                    assert(false);
                }
                return Err(e);
            },
        };

        let ghost tb = table_pairs(self.program.io.public_inputs, n, z@, base);
        proof {
            assert(base == old(backend).allocated().len());
            assert(vars.0@.len() == fresh.seq().len());
            assert forall|t: int|
                0 <= t < vars.0@.len() implies vars.0@[t] == fresh_handle_pairs(
                self.program.io.public_inputs,
                n,
                base,
            )[t] by {
                assert(fresh.seq()[t] == gfresh[t]);
                assert(vars.0@[t].1 == base + t);
            }
            assert(vars.0@ =~= fresh_handle_pairs(self.program.io.public_inputs, n, base));
            assert(vars2.0@ == tb);
        }

        // 5. Materialize every constraint, in program order.
        let mut ci: usize = 0;
        while ci < self.program.r1cs_constraints.len()
            invariant
                self.program.io.wf(),
                0 <= ci <= self.program.r1cs_constraints@.len(),
                z@.len() == self.program.io.public_inputs.seq().len(),
                witness_exact(self.witness, n),
                n == self.program.num_witness,
                vars2.0@ == tb,
                tb == table_pairs(self.program.io.public_inputs, n, z@, base),
                base == old(backend).allocated().len(),
                backend.allocated() == old(backend).allocated() + spec_fresh_values(
                    self.program,
                    self.witness,
                ),
                backend.enforced() == old(backend).enforced() + spec_emitted_upto(
                    self.program,
                    tb,
                    ci as nat,
                ),
                forall|i2: int|
                    0 <= i2 < ci ==> resolve_constraint(
                        tb,
                        #[trigger] self.program.r1cs_constraints@[i2],
                    ) is Some,
            decreases self.program.r1cs_constraints@.len() - ci,
        {
            match vars2.add_r1cs_constraint(backend, ci, &self.program.r1cs_constraints[ci]) {
                Ok(()) => {
                    proof {
                        assert(spec_emitted_upto(self.program, tb, ci as nat + 1)
                            =~= spec_emitted_upto(self.program, tb, ci as nat).push(
                            resolve_constraint(
                                tb,
                                self.program.r1cs_constraints@[ci as int],
                            ).unwrap(),
                        ));
                        assert(old(backend).enforced() + spec_emitted_upto(
                            self.program,
                            tb,
                            ci as nat + 1,
                        ) =~= (old(backend).enforced() + spec_emitted_upto(
                            self.program,
                            tb,
                            ci as nat,
                        )).push(resolve_constraint(
                            tb,
                            self.program.r1cs_constraints@[ci as int],
                        ).unwrap()));
                    }
                },
                Err(e) => {
                    proof {
                        assert(resolve_constraint(
                            tb,
                            self.program.r1cs_constraints@[ci as int],
                        ) is None);
                        assert(exists|j: nat|
                            j <= self.program.r1cs_constraints@.len() && backend.enforced()
                                == old(backend).enforced() + #[trigger] spec_emitted_upto(
                                self.program,
                                tb,
                                j,
                            )) by {
                            assert(backend.enforced() == old(backend).enforced()
                                + spec_emitted_upto(self.program, tb, ci as nat));
                        }
                    }
                    return Err(e);
                },
            }
            ci += 1;
        }

        // 6. The step's outputs: the public-output handles, ascending.
        match vars2.get_ordered_subset(&self.program.io.public_outputs) {
            Ok(outs) => {
                proof {
                    let fvlen = spec_fresh_values(self.program, self.witness).len();
                    assert(fvlen == gfresh.len());
                    if fvlen > 0 {
                        assert(fresh.seq()[fvlen - 1] == gfresh[fvlen - 1]);
                        assert(vars.0@[fvlen - 1].1 == base + (fvlen - 1));
                    }
                    assert(spec_emitted_upto(
                        self.program,
                        tb,
                        self.program.r1cs_constraints@.len(),
                    ) == spec_emitted(self.program, tb));
                    assert(outs@ =~= spec_outputs(self.program, tb));
                }
                Ok(outs)
            },
            Err(e) => {
                return Err(e);
            },
        }
    }
}

/// The handles the Step Driver supplies for the public inputs: dense from
/// the prior allocation count, in ascending identity order.
pub open spec fn input_handles(pi: IdSet, base0: nat) -> Seq<usize> {
    Seq::new(pi.seq().len(), |k: int| (base0 + k) as usize)
}

/// The conditions under which a `prove` run succeeds: every declared public
/// input has a witness value, and synthesis succeeds with the
/// driver-allocated input handles.
pub open spec fn prove_conditions<F>(p: IVCProgram<F>, w: Witness<F>, base0: nat) -> bool {
    &&& forall|k: int|
        0 <= k < p.io.public_inputs.seq().len() ==> w.spec_get(
            #[trigger] p.io.public_inputs.seq()[k],
        ) is Some
    &&& synth_conditions(
        p,
        w,
        input_handles(p.io.public_inputs, base0),
        base0 + p.io.public_inputs.seq().len(),
    )
}

/// Where the table of a `prove` run binds a slot, the bound variable's value
/// equals the witness value at that slot: produced outputs can never
/// disagree with a witness that covers the program exactly.
proof fn lemma_prove_value<F>(
    p: IVCProgram<F>,
    w: Witness<F>,
    pre0: Seq<F>,
    post: Seq<F>,
    z: Seq<usize>,
    base: nat,
    id: WitnessID,
)
    requires
        witness_exact(w, p.num_witness),
        forall|k: int|
            0 <= k < p.io.public_inputs.seq().len() ==> w.spec_get(
                #[trigger] p.io.public_inputs.seq()[k],
            ) is Some,
        z == input_handles(p.io.public_inputs, pre0.len()),
        base == pre0.len() + p.io.public_inputs.seq().len(),
        p.io.public_inputs.seq().len() > 0 ==> pre0.len() + p.io.public_inputs.seq().len()
            <= usize::MAX + 1,
        spec_fresh_values(p, w).len() > 0 ==> base + spec_fresh_values(p, w).len() <= usize::MAX
            + 1,
        post == pre0 + alloc_values(w, p.io.public_inputs.seq()) + spec_fresh_values(p, w),
        seq_find(table_pairs(p.io.public_inputs, p.num_witness, z, base), id) is Some,
    ensures
        w.spec_get(id) is Some,
        seq_find(table_pairs(p.io.public_inputs, p.num_witness, z, base), id).unwrap()
            < post.len(),
        post[seq_find(table_pairs(p.io.public_inputs, p.num_witness, z, base), id).unwrap() as int]
            == w.spec_get(id).unwrap(),
{
    let pi = p.io.public_inputs;
    let n = p.num_witness;
    let fhp = fresh_handle_pairs(pi, n, base);
    let zp = zip_pairs(pi.seq(), z);
    let gf = fresh_ids_upto(pi, n as nat);
    let piv = alloc_values(w, pi.seq());
    let fv = spec_fresh_values(p, w);
    let h = seq_find(table_pairs(pi, n, z, base), id).unwrap();
    lemma_fresh_ids_shape(pi, n as nat);
    lemma_seq_find_append(fhp, zp, id);
    assert(fv.len() == gf.len());
    assert(piv.len() == pi.seq().len());
    if seq_find(fhp, id) is Some {
        lemma_seq_find_witness(fhp, id);
        let t = choose|t: int|
            0 <= t < fhp.len() && fhp[t].0 == id && fhp[t].1 == seq_find(fhp, id).unwrap();
        assert(gf[t] == id);
        assert(id.0 < n);
        lemma_exact_get(w, n, id);
        assert(h == (base + t) as usize);
        assert(base + t <= usize::MAX);
        assert(h == base + t);
        assert(post[h as int] == fv[t]);
        assert(fv[t] == w.spec_get(gf[t]).unwrap());
    } else {
        lemma_seq_find_witness(zp, id);
        let t = choose|t: int|
            0 <= t < zp.len() && zp[t].0 == id && zp[t].1 == seq_find(zp, id).unwrap();
        assert(pi.seq()[t] == id);
        assert(h == z[t]);
        assert(z[t] == (pre0.len() + t) as usize);
        assert(pre0.len() + t <= usize::MAX);
        assert(h == pre0.len() + t);
        assert(post[h as int] == piv[t]);
        assert(piv[t] == w.spec_get(pi.seq()[t]).unwrap());
    }
}

impl<F: FieldValue> Step<F> {
    /// The Step Driver: allocates the program's declared public-input slots
    /// as backend variables from the step's witness, hands them to the
    /// interpreter as the external input vector, and then re-checks,
    /// defensively, that every produced output variable's value equals the
    /// value the witness already holds at that output identity. The
    /// re-check is proved never to fire: a run fails only for the reasons
    /// `prove_conditions` excludes.
    #[verifier::loop_isolation(false)]
    pub fn prove<B: Backend<F>>(&self, backend: &mut B) -> (r: Result<(), SynthesisError>)
        requires
            self.program.io.wf(),
            self.witness.wf(),
        ensures
            match r {
                Ok(()) => {
                    let base0 = old(backend).allocated().len();
                    let zz = input_handles(self.program.io.public_inputs, base0);
                    let tb = table_pairs(
                        self.program.io.public_inputs,
                        self.program.num_witness,
                        zz,
                        base0 + self.program.io.public_inputs.seq().len(),
                    );
                    &&& prove_conditions(self.program, self.witness, base0)
                    &&& forall|k: int|
                        0 <= k < self.program.io.public_outputs.seq().len()
                            ==> self.witness.spec_get(
                            #[trigger] self.program.io.public_outputs.seq()[k],
                        ) is Some
                    &&& final(backend).allocated() == old(backend).allocated() + alloc_values(
                        self.witness,
                        self.program.io.public_inputs.seq(),
                    ) + spec_fresh_values(self.program, self.witness)
                    &&& final(backend).enforced() == old(backend).enforced() + spec_emitted(
                        self.program,
                        tb,
                    )
                },
                Err(_) => !prove_conditions(
                    self.program,
                    self.witness,
                    old(backend).allocated().len(),
                ),
            },
    {
        let ghost base0 = backend.allocated().len();

        // 1. Allocate the declared public inputs from the witness.
        let vars_pi = match Variables::allocate_variables(
            backend,
            &self.program.io.public_inputs,
            &self.witness,
        ) {
            Ok(v) => v,
            Err(e) => {
                return Err(e);
            },
        };

        // 2. Read them back as the ordered external input vector.
        let z = match vars_pi.get_ordered_subset(&self.program.io.public_inputs) {
            Ok(zz) => zz,
            Err(e) => {
                proof {
                    let j = choose|j: int|
                        0 <= j < self.program.io.public_inputs.seq().len() && vars_pi.spec_get(
                            self.program.io.public_inputs.seq()[j],
                        ) is None;
                    assert forall|i1: int, j1: int|
                        0 <= i1 < j1 < vars_pi.0@.len() implies vars_pi.0@[i1].0
                        != vars_pi.0@[j1].0 by {
                        assert(vars_pi.0@[i1].0 == self.program.io.public_inputs.seq()[i1]);
                        assert(vars_pi.0@[j1].0 == self.program.io.public_inputs.seq()[j1]);
                    }
                    lemma_seq_find_at(vars_pi.0@, j);
                    assert(false);
                }
                return Err(e);
            },
        };
        proof {
            assert forall|k: int|
                0 <= k < self.program.io.public_inputs.seq().len() implies z@[k]
                == input_handles(self.program.io.public_inputs, base0)[k] by {
                assert forall|i1: int, j1: int|
                    0 <= i1 < j1 < vars_pi.0@.len() implies vars_pi.0@[i1].0
                    != vars_pi.0@[j1].0 by {
                    assert(vars_pi.0@[i1].0 == self.program.io.public_inputs.seq()[i1]);
                    assert(vars_pi.0@[j1].0 == self.program.io.public_inputs.seq()[j1]);
                }
                lemma_seq_find_at(vars_pi.0@, k);
                assert(z@[k] == vars_pi.0@[k].1);
                assert(vars_pi.0@[k].1 == base0 + k);
            }
            assert(z@ =~= input_handles(self.program.io.public_inputs, base0));
        }

        // 3. Synthesize the step with those inputs.
        let outs = match self.synthesize(backend, &z) {
            Ok(o) => o,
            Err(e) => {
                proof {
                    assert(alloc_values(self.witness, self.program.io.public_inputs.seq()).len()
                        == self.program.io.public_inputs.seq().len());
                }
                return Err(e);
            },
        };

        let ghost mid = base0 + self.program.io.public_inputs.seq().len();
        let ghost zz = input_handles(self.program.io.public_inputs, base0);
        let ghost tb = table_pairs(
            self.program.io.public_inputs,
            self.program.num_witness,
            zz,
            mid,
        );
        proof {
            assert(alloc_values(self.witness, self.program.io.public_inputs.seq()).len()
                == self.program.io.public_inputs.seq().len());
            if self.program.io.public_inputs.0.len() > 0 {
                let last = self.program.io.public_inputs.seq().len() - 1;
                assert(vars_pi.0@[last].0 == self.program.io.public_inputs.seq()[last]);
                assert(vars_pi.0@[last].1 == base0 + last);
            }
            assert(backend.allocated() =~= old(backend).allocated() + alloc_values(
                self.witness,
                self.program.io.public_inputs.seq(),
            ) + spec_fresh_values(self.program, self.witness));
        }

        // 4. Redundant check: every produced output's value must equal the
        // witness value at the corresponding output identity.
        let mut k: usize = 0;
        while k < outs.len()
            invariant
                0 <= k <= outs@.len(),
            decreases outs@.len() - k,
        {
            let id = self.program.io.public_outputs.0[k];
            let h = outs[k];
            proof {
                lemma_prove_value(
                    self.program,
                    self.witness,
                    old(backend).allocated(),
                    backend.allocated(),
                    zz,
                    mid,
                    id,
                );
            }
            let v = backend.value_of(h);
            match self.witness.get(id) {
                None => {
                    proof {
                        assert(false);
                    }
                    return Err(SynthesisError::OutputValueMismatch);
                },
                Some(wv) => {
                    if !v.eq_value(&wv) {
                        proof {
                            assert(false);
                        }
                        return Err(SynthesisError::OutputValueMismatch);
                    }
                },
            }
            k += 1;
        }
        proof {
            assert forall|k2: int|
                0 <= k2 < self.program.io.public_outputs.seq().len() implies self.witness.spec_get(
                #[trigger] self.program.io.public_outputs.seq()[k2],
            ) is Some by {
                lemma_prove_value(
                    self.program,
                    self.witness,
                    old(backend).allocated(),
                    backend.allocated(),
                    zz,
                    mid,
                    self.program.io.public_outputs.seq()[k2],
                );
            }
        }
        Ok(())
    }
}

} // verus!
