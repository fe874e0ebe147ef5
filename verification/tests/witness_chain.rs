use ivc_arith::input::{PrivateInput, PublicInput};
use ivc_arith::program::{IOProfile, IVCProgram, IdSet, WitnessID};
use ivc_arith::witness::Witness;
use ivc_arith::Error;


fn ids(v: Vec<u32>) -> IdSet {
    IdSet(v.into_iter().map(WitnessID).collect())
}

fn witness(pairs: Vec<(u32, u64)>) -> Witness<u64> {
    Witness(pairs.into_iter().map(|(id, v)| (WitnessID(id), v)).collect())
}

fn profile(pi: Vec<u32>, pri: Vec<u32>, po: Vec<u32>, pro: Vec<u32>) -> IOProfile {
    IOProfile {
        public_inputs: ids(pi),
        private_inputs: ids(pri),
        public_outputs: ids(po),
        private_outputs: ids(pro),
    }
}

#[test]
fn extract_subset_copies_requested() {
    let w = witness(vec![(0, 10), (1, 11), (2, 12)]);
    let sub = w.extract_subset(&ids(vec![0, 2])).unwrap();
    assert_eq!(sub, witness(vec![(0, 10), (2, 12)]));
}

#[test]
fn extract_subset_missing_slot() {
    let w = witness(vec![(0, 10), (2, 12)]);
    match w.extract_subset(&ids(vec![0, 1, 2])) {
        Err(Error::WitnessNotFound(id)) => assert_eq!(id, 1),
        other => panic!("expected a not-found error, got {:?}", other),
    }
}

#[test]
fn chaining_copies_outputs_to_inputs() {
    // Step 1 computed its outputs; chaining turns them into the public
    // inputs of step 2, slot for slot.
    let io = profile(vec![0, 1], vec![], vec![2, 3], vec![]);
    let w1 = witness(vec![(0, 5), (1, 6), (2, 50), (3, 60)]);
    let next = w1.make_next_input_witness(&io);
    assert_eq!(next, witness(vec![(0, 50), (1, 60)]));

    // Step 2's declared public-input witness, built from the same values,
    // matches the chained witness exactly.
    let declared = PublicInput(vec![50, 60]).make_witness(&io);
    assert_eq!(next, declared);
}

#[test]
fn empty_witness_template() {
    let p: IVCProgram<u64> = IVCProgram {
        io: profile(vec![0], vec![], vec![1], vec![]),
        num_witness: 3,
        r1cs_constraints: vec![],
        curve: String::from("u64"),
        version: String::from("0.1"),
    };
    let w = p.make_empty_witness();
    assert_eq!(w, witness(vec![(0, 0), (1, 0), (2, 0)]));
}

#[test]
fn public_input_make_witness_keys_by_declared_inputs() {
    let io = profile(vec![1, 3], vec![0, 2], vec![4, 5], vec![]);
    let w = PublicInput(vec![7, 9]).make_witness(&io);
    assert_eq!(w, witness(vec![(1, 7), (3, 9)]));
}

#[test]
fn conversions_wrap_their_values() {
    assert_eq!(WitnessID::from(3), WitnessID(3));
    let w: Witness<u64> = Witness::from(vec![(WitnessID(0), 8u64)]);
    assert_eq!(w, witness(vec![(0, 8)]));
    let values = PublicInput::from(witness(vec![(0, 8), (2, 9)]));
    assert_eq!(values.0, vec![8, 9]);
    assert_eq!(PublicInput::from(vec![1u64, 2]).0, vec![1, 2]);
    assert_eq!(PrivateInput::from(vec![1u64, 2]).0, vec![1, 2]);
    assert_eq!(
        Error::from(ivc_arith::program::MalformedProgramError::OverlapWitness),
        Error::MalformedProgramError(ivc_arith::program::MalformedProgramError::OverlapWitness)
    );
}

#[test]
fn private_input_make_witness_keys_by_declared_inputs() {
    let io = profile(vec![1, 3], vec![0, 2], vec![4, 5], vec![]);
    let w = PrivateInput(vec![7, 9]).make_witness(&io);
    assert_eq!(w, witness(vec![(0, 7), (2, 9)]));
}
