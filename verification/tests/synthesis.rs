use ivc_arith::backend::{Backend, RecordingBackend, ResolvedConstraint, ResolvedTerm};
use ivc_arith::program::{IOProfile, IdSet, IVCProgram, R1CSConstraint, Term, WitnessID, LC};
use ivc_arith::witness::Witness;
use ivc_arith::{Step, SynthesisError};

const P: u64 = 101;

fn ids(v: Vec<u32>) -> IdSet {
    IdSet(v.into_iter().map(WitnessID).collect())
}

fn witness(pairs: Vec<(u32, u64)>) -> Witness<u64> {
    Witness(pairs.into_iter().map(|(id, v)| (WitnessID(id), v)).collect())
}

fn profile(pi: Vec<u32>, po: Vec<u32>) -> IOProfile {
    IOProfile {
        public_inputs: ids(pi),
        private_inputs: ids(vec![]),
        public_outputs: ids(po),
        private_outputs: ids(vec![]),
    }
}

fn var(coefficient: u64, id: u32) -> Term<u64> {
    Term::LC { coefficient, var_id: WitnessID(id) }
}

/// The "invert" step: one public input (slot 0), one public output
/// (slot 1), and the single constraint `var0 * var1 = 1`.
fn invert_program() -> IVCProgram<u64> {
    IVCProgram {
        io: profile(vec![0], vec![1]),
        num_witness: 2,
        r1cs_constraints: vec![R1CSConstraint {
            a: LC(vec![var(1, 0)]),
            b: LC(vec![var(1, 1)]),
            c: LC(vec![Term::Const(1)]),
        }],
        curve: String::from("u64"),
        version: String::from("0.1"),
    }
}

fn eval_lc(terms: &[ResolvedTerm<u64>], values: &[u64]) -> u64 {
    let mut acc: u64 = 0;
    for t in terms {
        let contribution = match t {
            ResolvedTerm::Var { coefficient, index } => coefficient * values[*index] % P,
            ResolvedTerm::Const(v) => *v,
        };
        acc = (acc + contribution) % P;
    }
    acc
}

/// Plays the satisfiability check a proving backend would run, over the
/// arithmetic of the small prime field used by these tests.
fn is_satisfied(backend: &RecordingBackend<u64>) -> bool {
    backend.constraints.iter().all(|c: &ResolvedConstraint<u64>| {
        let a = eval_lc(&c.a, &backend.values);
        let b = eval_lc(&c.b, &backend.values);
        let cc = eval_lc(&c.c, &backend.values);
        a * b % P == cc % P
    })
}

#[test]
fn invert_step_synthesizes_and_outputs_inverse() {
    // 81 is the multiplicative inverse of 5 modulo 101.
    let step = Step { witness: witness(vec![(0, 5), (1, 81)]), program: invert_program() };

    let mut backend: RecordingBackend<u64> = RecordingBackend::new();
    let h0 = backend.allocate(5);
    let outs = step.synthesize(&mut backend, &vec![h0]).unwrap();

    assert_eq!(outs.len(), 1);
    assert_eq!(backend.values[outs[0]], 81);
    assert_eq!(backend.constraints.len(), 1);
    assert!(is_satisfied(&backend));
}

#[test]
fn invert_step_proves_and_checks_outputs() {
    let step = Step { witness: witness(vec![(0, 5), (1, 81)]), program: invert_program() };
    let mut backend: RecordingBackend<u64> = RecordingBackend::new();
    assert!(step.prove(&mut backend).is_ok());
    assert_eq!(backend.values, vec![5, 81]);
    assert!(is_satisfied(&backend));
}

#[test]
fn invert_step_wrong_inverse_is_unsatisfiable() {
    // 7 is not the inverse of 5, so synthesis succeeds but the recorded
    // constraint system is unsatisfiable.
    let step = Step { witness: witness(vec![(0, 5), (1, 7)]), program: invert_program() };
    let mut backend: RecordingBackend<u64> = RecordingBackend::new();
    assert!(step.prove(&mut backend).is_ok());
    assert!(!is_satisfied(&backend));
}

#[test]
fn outputs_come_in_ascending_identity_order() {
    // Two pass-through constraints: each output slot must carry its input.
    let program = IVCProgram {
        io: profile(vec![0, 1], vec![2, 3]),
        num_witness: 4,
        r1cs_constraints: vec![
            R1CSConstraint {
                a: LC(vec![var(1, 0)]),
                b: LC(vec![Term::Const(1)]),
                c: LC(vec![var(1, 2)]),
            },
            R1CSConstraint {
                a: LC(vec![var(1, 1)]),
                b: LC(vec![Term::Const(1)]),
                c: LC(vec![var(1, 3)]),
            },
        ],
        curve: String::from("u64"),
        version: String::from("0.1"),
    };
    let step = Step { witness: witness(vec![(0, 7), (1, 9), (2, 7), (3, 9)]), program };
    let mut backend: RecordingBackend<u64> = RecordingBackend::new();
    let h0 = backend.allocate(7);
    let h1 = backend.allocate(9);
    let outs = step.synthesize(&mut backend, &vec![h0, h1]).unwrap();
    assert_eq!(outs.len(), 2);
    assert_eq!(backend.values[outs[0]], 7);
    assert_eq!(backend.values[outs[1]], 9);
    assert!(is_satisfied(&backend));
}

#[test]
fn synthesis_is_deterministic() {
    let step = Step { witness: witness(vec![(0, 5), (1, 81)]), program: invert_program() };

    let mut b1: RecordingBackend<u64> = RecordingBackend::new();
    let h1 = b1.allocate(5);
    let o1 = step.synthesize(&mut b1, &vec![h1]).unwrap();

    let mut b2: RecordingBackend<u64> = RecordingBackend::new();
    let h2 = b2.allocate(5);
    let o2 = step.synthesize(&mut b2, &vec![h2]).unwrap();

    assert_eq!(o1, o2);
    assert_eq!(b1, b2);
}

#[test]
fn arity_is_the_public_input_count() {
    let step = Step { witness: witness(vec![(0, 5), (1, 81)]), program: invert_program() };
    assert_eq!(step.arity(), 1);
}

#[test]
fn synthesize_rejects_wrong_key_set() {
    let step = Step { witness: witness(vec![(0, 5)]), program: invert_program() };
    let mut backend: RecordingBackend<u64> = RecordingBackend::new();
    let h0 = backend.allocate(5);
    assert_eq!(
        step.synthesize(&mut backend, &vec![h0]),
        Err(SynthesisError::WitnessKeysMismatch)
    );
}

#[test]
fn synthesize_rejects_wrong_arity() {
    let step = Step { witness: witness(vec![(0, 5), (1, 81)]), program: invert_program() };
    let mut backend: RecordingBackend<u64> = RecordingBackend::new();
    assert_eq!(
        step.synthesize(&mut backend, &vec![]),
        Err(SynthesisError::InputCountMismatch)
    );
}

#[test]
fn synthesize_rejects_undeclared_slot_in_constraint() {
    let mut program = invert_program();
    program.r1cs_constraints[0].a = LC(vec![var(1, 5)]);
    let step = Step { witness: witness(vec![(0, 5), (1, 81)]), program };
    let mut backend: RecordingBackend<u64> = RecordingBackend::new();
    let h0 = backend.allocate(5);
    assert_eq!(
        step.synthesize(&mut backend, &vec![h0]),
        Err(SynthesisError::Unsatisfiable)
    );
}

#[test]
fn synthesize_rejects_output_without_variable() {
    let mut program = invert_program();
    program.io.public_outputs = ids(vec![7]);
    let step = Step { witness: witness(vec![(0, 5), (1, 81)]), program };
    let mut backend: RecordingBackend<u64> = RecordingBackend::new();
    let h0 = backend.allocate(5);
    assert_eq!(
        step.synthesize(&mut backend, &vec![h0]),
        Err(SynthesisError::AssignmentMissing)
    );
}

#[test]
fn prove_reports_missing_public_input() {
    let mut program = invert_program();
    program.io.public_inputs = ids(vec![5]);
    let step = Step { witness: witness(vec![(0, 5), (1, 81)]), program };
    let mut backend: RecordingBackend<u64> = RecordingBackend::new();
    assert_eq!(step.prove(&mut backend), Err(SynthesisError::AssignmentMissing));
}
