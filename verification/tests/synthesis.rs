use r1cs_circuits::r1cs::{
    constant_one, ConstraintSynthesizer, ConstraintSystem, LinearCombination, SynthesisError,
    SynthesisMode, VarKind, Variable,
};
use r1cs_circuits::cubic::CubicCircuit;
use r1cs_circuits::multiply::MultiplyCircuit;

const M: u64 = 1_000_000_007;

fn kinds(cs: &ConstraintSystem) -> Vec<VarKind> {
    cs.vars.iter().map(|e| e.kind).collect()
}

fn values(cs: &ConstraintSystem) -> Vec<Option<u64>> {
    cs.vars.iter().map(|e| e.value).collect()
}

#[test]
fn cubic_witness_three_gives_thirty_five() {
    let mut cs = ConstraintSystem::new(M, SynthesisMode::Prove);
    let circuit = CubicCircuit { x: Some(3) };
    assert_eq!(circuit.generate_constraints(&mut cs), Ok(()));
    assert_eq!(values(&cs), vec![Some(3), Some(9), Some(27), Some(35)]);
    assert_eq!(
        kinds(&cs),
        vec![VarKind::Witness, VarKind::Witness, VarKind::Witness, VarKind::PublicInput]
    );
    assert_eq!(cs.constraints.len(), 3);
    assert_eq!(cs.is_satisfied(), Ok(true));
}

#[test]
fn cubic_wraps_around_the_modulus() {
    // x = m - 1 stands for -1, so the output is (-1) + (-1) + 5 = 3.
    let mut cs = ConstraintSystem::new(M, SynthesisMode::Prove);
    let circuit = CubicCircuit { x: Some(M - 1) };
    assert_eq!(circuit.generate_constraints(&mut cs), Ok(()));
    assert_eq!(cs.vars[3].value, Some(3));
    assert_eq!(cs.is_satisfied(), Ok(true));
}

#[test]
fn multiply_six_by_seven_gives_forty_two() {
    let mut cs = ConstraintSystem::new(M, SynthesisMode::Prove);
    let circuit = MultiplyCircuit { a: Some(6), b: Some(7) };
    assert_eq!(circuit.generate_constraints(&mut cs), Ok(()));
    assert_eq!(values(&cs), vec![Some(6), Some(7), Some(42)]);
    assert_eq!(kinds(&cs), vec![VarKind::Witness, VarKind::Witness, VarKind::PublicInput]);
    assert_eq!(cs.constraints.len(), 1);
    assert_eq!(cs.is_satisfied(), Ok(true));
}

#[test]
fn multiply_with_large_witnesses() {
    let a: u64 = 123_456_789;
    let b: u64 = 987_654_321;
    let expected = ((a as u128 * b as u128) % M as u128) as u64;
    let mut cs = ConstraintSystem::new(M, SynthesisMode::Prove);
    let circuit = MultiplyCircuit { a: Some(a), b: Some(b) };
    assert_eq!(circuit.generate_constraints(&mut cs), Ok(()));
    assert_eq!(cs.vars[2].value, Some(expected));
    assert_eq!(cs.is_satisfied(), Ok(true));
}

#[test]
fn cubic_setup_and_prove_share_one_shape() {
    let mut setup = ConstraintSystem::new(M, SynthesisMode::Setup);
    assert_eq!(CubicCircuit { x: None }.generate_constraints(&mut setup), Ok(()));
    let mut proving = ConstraintSystem::new(M, SynthesisMode::Prove);
    assert_eq!(CubicCircuit { x: Some(11) }.generate_constraints(&mut proving), Ok(()));
    assert_eq!(kinds(&setup), kinds(&proving));
    assert_eq!(setup.constraints, proving.constraints);
    assert!(setup.vars.iter().all(|e| e.value.is_none()));
    assert!(proving.vars.iter().all(|e| e.value.is_some()));
}

#[test]
fn multiply_setup_and_prove_share_one_shape() {
    let mut setup = ConstraintSystem::new(M, SynthesisMode::Setup);
    assert_eq!(MultiplyCircuit { a: None, b: None }.generate_constraints(&mut setup), Ok(()));
    let mut proving = ConstraintSystem::new(M, SynthesisMode::Prove);
    let circuit = MultiplyCircuit { a: Some(4), b: Some(9) };
    assert_eq!(circuit.generate_constraints(&mut proving), Ok(()));
    assert_eq!(kinds(&setup), kinds(&proving));
    assert_eq!(setup.constraints, proving.constraints);
}

#[test]
fn setup_mode_tolerates_missing_values() {
    let mut cs = ConstraintSystem::new(M, SynthesisMode::Setup);
    assert_eq!(CubicCircuit { x: None }.generate_constraints(&mut cs), Ok(()));
    assert_eq!(cs.vars.len(), 4);
    assert_eq!(cs.constraints.len(), 3);
    // The shape carries no assignment, so the satisfaction check reports
    // the unassigned variables rather than an answer.
    assert_eq!(cs.is_satisfied(), Err(SynthesisError::UnassignedVariable));
}

#[test]
fn proving_mode_requires_values() {
    let mut cs = ConstraintSystem::new(M, SynthesisMode::Prove);
    assert_eq!(
        CubicCircuit { x: None }.generate_constraints(&mut cs),
        Err(SynthesisError::AssignmentMissing)
    );
    assert_eq!(cs.vars.len(), 0);
    assert_eq!(cs.constraints.len(), 0);

    let mut cs2 = ConstraintSystem::new(M, SynthesisMode::Prove);
    assert_eq!(
        MultiplyCircuit { a: Some(6), b: None }.generate_constraints(&mut cs2),
        Err(SynthesisError::AssignmentMissing)
    );
    assert_eq!(cs2.constraints.len(), 0);
}

#[test]
fn cubic_wrong_output_is_rejected() {
    let mut cs = ConstraintSystem::new(M, SynthesisMode::Prove);
    assert_eq!(CubicCircuit { x: Some(3) }.generate_constraints(&mut cs), Ok(()));
    assert_eq!(cs.is_satisfied(), Ok(true));
    // Claim out + 1 instead of the honest 35: the output constraint fails.
    cs.vars[3].value = Some(36);
    assert_eq!(cs.is_satisfied(), Ok(false));
}

#[test]
fn multiply_wrong_output_is_rejected() {
    let mut cs = ConstraintSystem::new(M, SynthesisMode::Prove);
    let circuit = MultiplyCircuit { a: Some(6), b: Some(7) };
    assert_eq!(circuit.generate_constraints(&mut cs), Ok(()));
    // Claim the witness a itself as the product: rejected.
    cs.vars[2].value = Some(6);
    assert_eq!(cs.is_satisfied(), Ok(false));
}

#[test]
fn public_statement_lists_inputs_in_order() {
    let mut cs = ConstraintSystem::new(M, SynthesisMode::Prove);
    assert_eq!(CubicCircuit { x: Some(3) }.generate_constraints(&mut cs), Ok(()));
    assert_eq!(cs.public_inputs(), vec![Some(35)]);

    let mut cs2 = ConstraintSystem::new(M, SynthesisMode::Prove);
    let circuit = MultiplyCircuit { a: Some(6), b: Some(7) };
    assert_eq!(circuit.generate_constraints(&mut cs2), Ok(()));
    assert_eq!(cs2.public_inputs(), vec![Some(42)]);

    let mut setup = ConstraintSystem::new(M, SynthesisMode::Setup);
    assert_eq!(CubicCircuit { x: None }.generate_constraints(&mut setup), Ok(()));
    assert_eq!(setup.public_inputs(), vec![None]);

    let mut manual = ConstraintSystem::new(M, SynthesisMode::Prove);
    manual.new_input_variable(Some(8)).unwrap();
    manual.new_witness_variable(Some(9)).unwrap();
    manual.new_input_variable(Some(10)).unwrap();
    assert_eq!(manual.public_inputs(), vec![Some(8), Some(10)]);
}

#[test]
fn evaluate_sums_terms_modulo() {
    let lc = LinearCombination::new().add_term(2, Variable::Slot(0)).add_term(3, constant_one());
    let assignment = vec![Some(5u64)];
    assert_eq!(lc.evaluate(97, &assignment), Ok(13));
    assert_eq!(lc.evaluate(7, &assignment), Ok(6));
}

#[test]
fn evaluate_reports_unassigned_variables() {
    let lc = LinearCombination::new().add_var(Variable::Slot(0));
    assert_eq!(lc.evaluate(97, &vec![None]), Err(SynthesisError::UnassignedVariable));
    let out_of_range = LinearCombination::new().add_var(Variable::Slot(1));
    assert_eq!(out_of_range.evaluate(97, &vec![Some(1)]), Err(SynthesisError::UnassignedVariable));
}

#[test]
fn empty_combination_evaluates_to_zero() {
    let lc = LinearCombination::new();
    assert_eq!(lc.evaluate(97, &Vec::new()), Ok(0));
}

#[test]
fn adding_combinations_adds_their_evaluations() {
    let left = LinearCombination::new().add_term(2, Variable::Slot(0));
    let right = LinearCombination::new().add_term(3, constant_one()).add_var(Variable::Slot(1));
    let sum = left.add_lc(97, &right);
    let assignment = vec![Some(5u64), Some(40u64)];
    // 2*5 + 3*1 + 1*40 = 53
    assert_eq!(sum.evaluate(97, &assignment), Ok(53));
    assert_eq!(sum.terms.len(), 3);
}

#[test]
fn adding_combinations_merges_shared_variables() {
    let left = LinearCombination::new().add_term(2, Variable::Slot(0)).add_term(7, constant_one());
    let right = LinearCombination::new().add_term(3, Variable::Slot(0));
    let sum = left.add_lc(97, &right);
    // The shared variable keeps one term with the summed coefficient.
    assert_eq!(sum.terms, vec![(5, Variable::Slot(0)), (7, Variable::One)]);
    let assignment = vec![Some(5u64)];
    assert_eq!(sum.evaluate(97, &assignment), Ok(32));

    // Coefficients are summed in the field.
    let big = LinearCombination::new().add_term(96, Variable::Slot(0));
    let wrapped = big.add_lc(97, &LinearCombination::new().add_term(2, Variable::Slot(0)));
    assert_eq!(wrapped.terms, vec![(1, Variable::Slot(0))]);
}

#[test]
fn enforce_rejects_unallocated_variables() {
    let mut cs = ConstraintSystem::new(97, SynthesisMode::Prove);
    let lc = LinearCombination::new().add_var(Variable::Slot(5));
    let one = LinearCombination::new().add_var(constant_one());
    assert_eq!(
        cs.enforce_constraint(lc, one.clone(), one),
        Err(SynthesisError::UnassignedVariable)
    );
    assert_eq!(cs.constraints.len(), 0);
}

#[test]
fn witness_allocation_is_ordered() {
    let mut cs = ConstraintSystem::new(97, SynthesisMode::Prove);
    assert_eq!(cs.new_witness_variable(Some(1)), Ok(Variable::Slot(0)));
    assert_eq!(cs.new_input_variable(Some(2)), Ok(Variable::Slot(1)));
    assert_eq!(cs.new_witness_variable(None), Err(SynthesisError::AssignmentMissing));
    assert_eq!(cs.new_witness_variable(Some(3)), Ok(Variable::Slot(2)));
    assert_eq!(kinds(&cs), vec![VarKind::Witness, VarKind::PublicInput, VarKind::Witness]);
}
