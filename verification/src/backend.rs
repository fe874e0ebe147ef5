//! The constraint-satisfaction backend's capability surface, and a backend
//! that records every call. The interpreter depends only on this capability
//! set, so it stays testable without any particular proving library.

use vstd::prelude::*;

verus! {

/// One term of a resolved linear combination: either `coefficient` times the
/// backend variable with handle `index`, or a constant contribution.
#[derive(Clone, Copy, Debug, PartialEq)]
pub enum ResolvedTerm<F> {
    Var { coefficient: F, index: usize },
    Const(F),
}

/// A rank-1 relation `a * b = c` over resolved linear combinations, as handed
/// to the backend.
#[derive(Clone, Debug, PartialEq)]
pub struct ResolvedConstraint<F> {
    pub a: Vec<ResolvedTerm<F>>,
    pub b: Vec<ResolvedTerm<F>>,
    pub c: Vec<ResolvedTerm<F>>,
}

/// Specification-level record of one enforced rank-1 relation.
pub ghost struct EnforcedConstraint<F> {
    pub a: Seq<ResolvedTerm<F>>,
    pub b: Seq<ResolvedTerm<F>>,
    pub c: Seq<ResolvedTerm<F>>,
}

/// The specification-level record of `c`.
pub open spec fn enforced_of<F>(c: ResolvedConstraint<F>) -> EnforcedConstraint<F> {
    EnforcedConstraint { a: c.a@, b: c.b@, c: c.c@ }
}

/// A backend: scoped variable allocation binding a field value to an opaque
/// handle, and rank-1 enforcement over resolved combinations. Handles are
/// dense indices in allocation order.
pub trait Backend<F>: Sized {
    /// Values bound to the variables allocated so far, in allocation order;
    /// a variable's handle is its position here. The default leaves the
    /// state unspecified, for impls outside the verifier's sight.
    open spec fn allocated(&self) -> Seq<F> {
        vstd::pervasive::arbitrary()
    }

    /// Rank-1 relations enforced so far, in order. The default leaves the
    /// state unspecified, for impls outside the verifier's sight.
    open spec fn enforced(&self) -> Seq<EnforcedConstraint<F>> {
        vstd::pervasive::arbitrary()
    }

    /// Allocates a fresh variable bound to `value`; the handle is the number
    /// of variables allocated before it.
    fn allocate(&mut self, value: F) -> (h: usize)
        ensures
            final(self).allocated() == old(self).allocated().push(value),
            final(self).enforced() == old(self).enforced(),
            h == old(self).allocated().len(),
    ;

    /// Enforces `a * b = c`, tagged with `index` for diagnostics.
    fn enforce(&mut self, index: usize, constraint: ResolvedConstraint<F>)
        ensures
            final(self).allocated() == old(self).allocated(),
            final(self).enforced() == old(self).enforced().push(enforced_of(constraint)),
    ;

    /// The value bound to the variable with handle `h`.
    fn value_of(&self, h: usize) -> (r: F)
        requires
            h < self.allocated().len(),
        ensures
            r == self.allocated()[h as int],
    ;
}

/// A backend that simply records every allocation and every enforcement, in
/// order, for exercising the interpreter without a proving library.
#[derive(Clone, Debug, PartialEq)]
pub struct RecordingBackend<F> {
    pub values: Vec<F>,
    pub constraints: Vec<ResolvedConstraint<F>>,
}

impl<F> RecordingBackend<F> {
    /// A backend with nothing recorded yet.
    pub fn new() -> (b: Self)
        ensures
            b.values@.len() == 0,
            b.constraints@.len() == 0,
    {
        RecordingBackend { values: Vec::new(), constraints: Vec::new() }
    }
}

impl<F: Copy> Backend<F> for RecordingBackend<F> {
    open spec fn allocated(&self) -> Seq<F> {
        self.values@
    }

    open spec fn enforced(&self) -> Seq<EnforcedConstraint<F>> {
        self.constraints@.map_values(|c: ResolvedConstraint<F>| enforced_of(c))
    }

    fn allocate(&mut self, value: F) -> usize {
        let h = self.values.len();
        self.values.push(value);
        proof {
            assert(self.constraints@.map_values(|c: ResolvedConstraint<F>| enforced_of(c))
                =~= old(self).constraints@.map_values(|c: ResolvedConstraint<F>| enforced_of(c)));
        }
        h
    }

    #[allow(unused_variables)]
    fn enforce(&mut self, index: usize, constraint: ResolvedConstraint<F>) {
        let ghost g = enforced_of(constraint);
        self.constraints.push(constraint);
        proof {
            assert(self.constraints@.map_values(|c: ResolvedConstraint<F>| enforced_of(c))
                =~= old(self).constraints@.map_values(
                    |c: ResolvedConstraint<F>| enforced_of(c),
                ).push(g));
        }
    }

    fn value_of(&self, h: usize) -> F {
        self.values[h]
    }
}

} // verus!
