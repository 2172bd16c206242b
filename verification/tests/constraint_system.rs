//! Tests of the constraint-system core: allocation, modes, evaluation,
//! validation and the statement (public-input) handling.

use r1cs::circuits::{Circuit, FixedProductDemo, MultiplyDemo};
use r1cs::lc::LinearCombination;
use r1cs::scalar::ScalarValue;
use r1cs::system::{ConstraintSystem, SynthesisError, SynthesisMode, VarKind};

fn sv(v: u64) -> ScalarValue {
    ScalarValue::from_u64(v)
}

#[test]
fn allocation_ids_are_allocation_order() {
    let mut cs = ConstraintSystem::new(SynthesisMode::Witness);
    let a = cs.allocate(VarKind::Private, Some(sv(5))).unwrap();
    let b = cs.allocate(VarKind::Public, Some(sv(6))).unwrap();
    let c = cs.allocate(VarKind::Private, Some(sv(7))).unwrap();
    assert_eq!((a, b, c), (1, 2, 3));
    assert!(matches!(cs.variables[0].kind, VarKind::Private));
    assert!(matches!(cs.variables[1].kind, VarKind::Public));
    assert_eq!(cs.variables[1].value, Some(sv(6)));
}

#[test]
fn setup_mode_stores_no_values_and_never_fails() {
    let mut cs = ConstraintSystem::new(SynthesisMode::Setup);
    let a = cs.allocate(VarKind::Private, None).unwrap();
    let b = cs.allocate(VarKind::Public, Some(sv(9))).unwrap();
    assert_eq!((a, b), (1, 2));
    assert!(cs.variables[0].value.is_none());
    assert!(cs.variables[1].value.is_none());
}

#[test]
fn witness_mode_missing_value_fails() {
    let mut cs = ConstraintSystem::new(SynthesisMode::Witness);
    assert_eq!(
        cs.allocate(VarKind::Private, None),
        Err(SynthesisError::MissingAssignment)
    );
    assert_eq!(cs.variables.len(), 0);
}

#[test]
fn multiply_demo_setup_determinism() {
    let mut descriptions = Vec::new();
    for _ in 0..3 {
        let mut cs = ConstraintSystem::new(SynthesisMode::Setup);
        let circuit = MultiplyDemo {
            a: None,
            b: None,
            c: None,
        };
        circuit.synthesize(&mut cs).unwrap();
        descriptions.push(cs);
    }
    assert_eq!(descriptions[0], descriptions[1]);
    assert_eq!(descriptions[1], descriptions[2]);
}

#[test]
fn fixed_product_setup_determinism() {
    let mut descriptions = Vec::new();
    for _ in 0..3 {
        let mut cs = ConstraintSystem::new(SynthesisMode::Setup);
        let circuit = FixedProductDemo {
            a: None,
            b: None,
            k: sv(24),
        };
        circuit.synthesize(&mut cs).unwrap();
        descriptions.push(cs);
    }
    assert_eq!(descriptions[0], descriptions[1]);
    assert_eq!(descriptions[1], descriptions[2]);
}

#[test]
fn cross_mode_structure_identical() {
    let mut setup_cs = ConstraintSystem::new(SynthesisMode::Setup);
    MultiplyDemo {
        a: None,
        b: None,
        c: None,
    }
    .synthesize(&mut setup_cs)
    .unwrap();

    let mut wit_cs = ConstraintSystem::new(SynthesisMode::Witness);
    MultiplyDemo {
        a: Some(sv(4)),
        b: Some(sv(2)),
        c: Some(sv(8)),
    }
    .synthesize(&mut wit_cs)
    .unwrap();

    assert_eq!(setup_cs.variables.len(), wit_cs.variables.len());
    for (s, w) in setup_cs.variables.iter().zip(wit_cs.variables.iter()) {
        assert_eq!(s.kind, w.kind);
        assert!(s.value.is_none());
        assert!(w.value.is_some());
    }
    // Constraints carry only structure (ids and coefficients), so the two
    // runs must agree on them exactly.
    assert_eq!(setup_cs.constraints, wit_cs.constraints);
}

#[test]
fn validate_accepts_matching_product() {
    let mut cs = ConstraintSystem::new(SynthesisMode::Witness);
    FixedProductDemo {
        a: Some(sv(3)),
        b: Some(sv(8)),
        k: sv(24),
    }
    .synthesize(&mut cs)
    .unwrap();
    assert_eq!(cs.validate(), Ok(()));
}

#[test]
fn validate_rejects_wrong_product() {
    let mut cs = ConstraintSystem::new(SynthesisMode::Witness);
    FixedProductDemo {
        a: Some(sv(3)),
        b: Some(sv(7)),
        k: sv(24),
    }
    .synthesize(&mut cs)
    .unwrap();
    assert_eq!(cs.validate(), Err(SynthesisError::ConstraintUnsatisfied));
}

#[test]
fn validate_reports_missing_assignment() {
    // A setup-mode description has constraints but no values at all.
    let mut cs = ConstraintSystem::new(SynthesisMode::Setup);
    MultiplyDemo {
        a: None,
        b: None,
        c: None,
    }
    .synthesize(&mut cs)
    .unwrap();
    assert_eq!(cs.validate(), Err(SynthesisError::MissingAssignment));
}

#[test]
fn synthesize_missing_witness_value_fails() {
    let mut cs = ConstraintSystem::new(SynthesisMode::Witness);
    let r = MultiplyDemo {
        a: Some(sv(4)),
        b: None,
        c: Some(sv(8)),
    }
    .synthesize(&mut cs);
    assert_eq!(r, Err(SynthesisError::MissingAssignment));
}

#[test]
fn multiply_demo_statement_handling() {
    let mut cs = ConstraintSystem::new(SynthesisMode::Witness);
    MultiplyDemo {
        a: Some(sv(4)),
        b: Some(sv(2)),
        c: Some(sv(8)),
    }
    .synthesize(&mut cs)
    .unwrap();
    assert_eq!(cs.validate(), Ok(()));
    assert_eq!(cs.num_public_inputs(), 1);
    let publics = cs.public_values().unwrap();
    assert_eq!(publics, vec![sv(8)]);
    assert!(cs.accepts_statement(&publics));
    assert!(!cs.accepts_statement(&vec![]));
    assert!(!cs.accepts_statement(&vec![sv(8), sv(9)]));
}

#[test]
fn multiply_demo_wrong_product_unsatisfied() {
    let mut cs = ConstraintSystem::new(SynthesisMode::Witness);
    MultiplyDemo {
        a: Some(sv(4)),
        b: Some(sv(2)),
        c: Some(sv(9)),
    }
    .synthesize(&mut cs)
    .unwrap();
    assert_eq!(cs.validate(), Err(SynthesisError::ConstraintUnsatisfied));
}

#[test]
fn public_values_missing_value_fails() {
    let mut cs = ConstraintSystem::new(SynthesisMode::Setup);
    MultiplyDemo {
        a: None,
        b: None,
        c: None,
    }
    .synthesize(&mut cs)
    .unwrap();
    assert_eq!(
        cs.public_values(),
        Err(SynthesisError::MissingAssignment)
    );
}

#[test]
fn empty_combination_evaluates_to_zero() {
    let cs = ConstraintSystem::new(SynthesisMode::Witness);
    let lc = LinearCombination::new();
    assert_eq!(cs.eval_lc(&lc), Ok(ScalarValue::zero()));
}

#[test]
fn eval_constant_combination() {
    let cs = ConstraintSystem::new(SynthesisMode::Witness);
    let lc = LinearCombination::constant(sv(24));
    assert_eq!(cs.eval_lc(&lc), Ok(sv(24)));
}

#[test]
fn eval_add_and_sub_terms() {
    let mut cs = ConstraintSystem::new(SynthesisMode::Witness);
    let x = cs.allocate(VarKind::Private, Some(sv(7))).unwrap();
    // 5·x - 2·x with x = 7 is 21.
    let lc = LinearCombination::new()
        .add_term(sv(5), x)
        .sub_term(sv(2), x);
    assert_eq!(cs.eval_lc(&lc), Ok(sv(21)));
}

#[test]
fn eval_negation_is_exact() {
    let mut cs = ConstraintSystem::new(SynthesisMode::Witness);
    let x = cs.allocate(VarKind::Private, Some(sv(1))).unwrap();
    let lc = LinearCombination::new().sub_term(sv(1), x);
    // -1 is the field modulus minus one.
    let expected = ScalarValue {
        l0: 0xffffffff00000000,
        l1: 0x53bda402fffe5bfe,
        l2: 0x3339d80809a1d805,
        l3: 0x73eda753299d7d48,
    };
    assert_eq!(cs.eval_lc(&lc), Ok(expected));
}

#[test]
fn repeated_variable_coefficients_sum() {
    let mut cs = ConstraintSystem::new(SynthesisMode::Witness);
    let x = cs.allocate(VarKind::Private, Some(sv(7))).unwrap();
    // 5·x + 2·x accumulates to 7·x = 49, never an overwrite.
    let lc = LinearCombination::new()
        .add_term(sv(5), x)
        .add_term(sv(2), x);
    assert_eq!(cs.eval_lc(&lc), Ok(sv(49)));
}

#[test]
fn eval_missing_variable_fails() {
    let cs = ConstraintSystem::new(SynthesisMode::Witness);
    // Variable id 1 was never allocated.
    let lc = LinearCombination::new().add_term(sv(1), 1);
    assert_eq!(cs.eval_lc(&lc), Err(SynthesisError::MissingAssignment));
}

#[test]
fn degenerate_empty_constraints() {
    // Empty sides are legal: 0·0 = 0 holds, 0·0 = 1 cannot.
    let mut cs = ConstraintSystem::new(SynthesisMode::Witness);
    cs.enforce(
        "trivial",
        LinearCombination::new(),
        LinearCombination::new(),
        LinearCombination::new(),
    );
    assert_eq!(cs.validate(), Ok(()));
    cs.enforce(
        "impossible",
        LinearCombination::new(),
        LinearCombination::new(),
        LinearCombination::constant(sv(1)),
    );
    assert_eq!(cs.validate(), Err(SynthesisError::ConstraintUnsatisfied));
}
