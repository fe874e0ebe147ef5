use ivc_arith::program::{get_curve_name, IOProfile, IdSet, MalformedProgramError, WitnessID};

fn ids(v: Vec<u32>) -> IdSet {
    IdSet(v.into_iter().map(WitnessID).collect())
}

fn profile(pi: Vec<u32>, pri: Vec<u32>, po: Vec<u32>, pro: Vec<u32>) -> IOProfile {
    IOProfile {
        public_inputs: ids(pi),
        private_inputs: ids(pri),
        public_outputs: ids(po),
        private_outputs: ids(pro),
    }
}

#[test]
fn check_structure_accepts_disjoint_profile() {
    let io = profile(vec![0], vec![2], vec![1], vec![3]);
    assert!(io.check_structure().is_ok());
}

#[test]
fn check_structure_reports_unequal_cardinality() {
    let io = profile(vec![0], vec![], vec![], vec![]);
    match io.check_structure() {
        Err(MalformedProgramError::UnequalPublicInputsOutputs(n_in, n_out)) => {
            assert_eq!(n_in, 1);
            assert_eq!(n_out, 0);
        },
        other => panic!("expected unequal-cardinality error, got {:?}", other),
    }
}

#[test]
fn check_structure_reports_overlap() {
    let io = profile(vec![0], vec![0], vec![1], vec![]);
    assert_eq!(io.check_structure(), Err(MalformedProgramError::OverlapWitness));
}

#[test]
fn check_structure_reports_overlap_between_outputs() {
    let io = profile(vec![0], vec![], vec![1], vec![1]);
    assert_eq!(io.check_structure(), Err(MalformedProgramError::OverlapWitness));
}

#[test]
fn curve_name_is_lowercased() {
    assert_eq!(get_curve_name::<u64>(), "u64");
}

#[derive(Clone, Copy, Debug, PartialEq)]
struct DemoField(u64);

impl ivc_arith::field::FieldValue for DemoField {
    fn zero_value() -> DemoField {
        DemoField(0)
    }

    fn eq_value(&self, other: &DemoField) -> bool {
        self.0 == other.0
    }

    fn type_label() -> String {
        "Fq".to_string()
    }
}

#[test]
fn curve_name_lowercases_the_label() {
    assert_eq!(get_curve_name::<DemoField>(), "fq");
}

#[test]
fn id_set_membership() {
    let s = ids(vec![1, 4, 9]);
    assert!(s.contains(WitnessID(4)));
    assert!(!s.contains(WitnessID(2)));
    assert_eq!(s.len(), 3);
}
