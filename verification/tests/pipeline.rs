//! The order of the pipeline's stages and the descriptor builder's refusals.

use bid_circuits::field::Scalar;
use bid_circuits::pipeline::{check_range, Pipeline, PipelineError, Stage, MAX_DEGREE};
use bid_circuits::plonk::{
    Cell, Column, ColumnKind, ConfigError, ConstraintSystem, Expression, Selector, TableColumn,
};
use bid_circuits::synthesis::{Layouter, SynthesisError};

#[test]
fn range_claims_are_checked_before_any_circuit_is_built() {
    assert_eq!(check_range(10, 100, 50), Ok(()));
    assert_eq!(check_range(10, 100, 10), Ok(()));
    assert_eq!(check_range(10, 100, 100), Ok(()));
    assert_eq!(check_range(10, 100, 5), Err(PipelineError::Witness));
    assert_eq!(check_range(10, 100, 101), Err(PipelineError::Witness));
    assert_eq!(check_range(100, 10, 50), Err(PipelineError::Witness));
    assert_eq!(check_range(0, u64::MAX, u64::MAX), Ok(()));
}

#[test]
fn stages_run_in_order() {
    let mut p = Pipeline::new();
    assert_eq!(p, Pipeline { params: None, keys: None, proof: false });
    assert_eq!(p.advance(Stage::KeyGen { rows: 16 }), Err(PipelineError::Configuration));
    assert_eq!(p.advance(Stage::Prove), Err(PipelineError::Configuration));
    assert_eq!(p.advance(Stage::Verify), Err(PipelineError::Configuration));
    assert_eq!(p.advance(Stage::ExportVerifier), Err(PipelineError::Configuration));
    assert_eq!(p, Pipeline::new());

    assert_eq!(p.advance(Stage::Setup { k: 8 }), Ok(()));
    assert_eq!(p, Pipeline { params: Some(8), keys: None, proof: false });
    assert_eq!(p.advance(Stage::Prove), Err(PipelineError::Configuration));
    assert_eq!(p.advance(Stage::ExportVerifier), Err(PipelineError::Configuration));

    assert_eq!(p.advance(Stage::KeyGen { rows: 256 }), Ok(()));
    assert_eq!(p, Pipeline { params: Some(8), keys: Some(8), proof: false });
    assert_eq!(p.advance(Stage::Verify), Err(PipelineError::Configuration));
    assert_eq!(p.advance(Stage::ExportVerifier), Ok(()));

    assert_eq!(p.advance(Stage::Prove), Ok(()));
    assert_eq!(p, Pipeline { params: Some(8), keys: Some(8), proof: true });
    assert_eq!(p.advance(Stage::Verify), Ok(()));
    assert_eq!(p.advance(Stage::ExportVerifier), Ok(()));
    assert_eq!(p, Pipeline { params: Some(8), keys: Some(8), proof: true });
}

#[test]
fn stages_are_idempotent() {
    let mut p = Pipeline::new();
    for stage in [Stage::Setup { k: 8 }, Stage::KeyGen { rows: 10 }, Stage::Prove, Stage::Verify] {
        assert_eq!(p.advance(stage), Ok(()));
        let once = p;
        assert_eq!(p.advance(stage), Ok(()));
        assert_eq!(p, once);
    }
}

#[test]
fn a_new_degree_drops_keys_and_proof() {
    let mut p = Pipeline::new();
    p.advance(Stage::Setup { k: 8 }).unwrap();
    p.advance(Stage::KeyGen { rows: 10 }).unwrap();
    p.advance(Stage::Prove).unwrap();
    assert_eq!(p.advance(Stage::Setup { k: 9 }), Ok(()));
    assert_eq!(p, Pipeline { params: Some(9), keys: None, proof: false });
    // new keys drop the proof made with the old ones
    p.advance(Stage::KeyGen { rows: 10 }).unwrap();
    p.advance(Stage::Prove).unwrap();
    assert_eq!(p.advance(Stage::KeyGen { rows: 11 }), Ok(()));
    assert_eq!(p, Pipeline { params: Some(9), keys: Some(9), proof: false });
}

#[test]
fn degrees_the_backend_does_not_support() {
    let mut p = Pipeline::new();
    assert_eq!(p.advance(Stage::Setup { k: 0 }), Err(PipelineError::BackendFailure));
    assert_eq!(p.advance(Stage::Setup { k: MAX_DEGREE + 1 }), Err(PipelineError::BackendFailure));
    assert_eq!(p, Pipeline::new());
    assert_eq!(p.advance(Stage::Setup { k: MAX_DEGREE }), Ok(()));
    assert_eq!(p.advance(Stage::Setup { k: 4 }), Ok(()));
    // 2^4 = 16 rows
    assert_eq!(p.advance(Stage::KeyGen { rows: 17 }), Err(PipelineError::BackendFailure));
    assert_eq!(p, Pipeline { params: Some(4), keys: None, proof: false });
    assert_eq!(p.advance(Stage::KeyGen { rows: 16 }), Ok(()));
}

#[test]
fn errors_have_messages() {
    assert_eq!(PipelineError::Configuration.message(), "configuration error");
    assert_eq!(PipelineError::Witness.message(), "witness error");
    assert_eq!(PipelineError::ConstraintUnsatisfied.message(), "constraint unsatisfied");
    assert_eq!(PipelineError::VerificationRejected.message(), "verification rejected");
    assert_eq!(PipelineError::ProofDecode.message(), "proof decode error");
    assert_eq!(PipelineError::BackendFailure.message(), "backend failure");
    assert_eq!(PipelineError::from_config(ConfigError::EmptyGate), PipelineError::Configuration);
    assert_eq!(
        PipelineError::from_synthesis(SynthesisError::ColumnNotInPermutation),
        PipelineError::Configuration
    );
}

#[test]
fn descriptor_allocates_columns_in_order() {
    let mut cs = ConstraintSystem::new();
    assert_eq!(cs.advice_column(), Column { kind: ColumnKind::Advice, index: 0 });
    assert_eq!(cs.advice_column(), Column { kind: ColumnKind::Advice, index: 1 });
    assert_eq!(cs.fixed_column(), Column { kind: ColumnKind::Fixed, index: 0 });
    assert_eq!(cs.instance_column(), Column { kind: ColumnKind::Instance, index: 0 });
    assert_eq!(cs.selector(), Selector { index: 0 });
    assert_eq!(cs.selector(), Selector { index: 1 });
    assert_eq!(cs.lookup_table_column(), TableColumn { index: 0 });
    assert_eq!(
        (cs.num_advice, cs.num_fixed, cs.num_instance, cs.num_selectors, cs.num_tables),
        (2, 1, 1, 2, 1)
    );
    assert!(cs.contains_column(Column { kind: ColumnKind::Advice, index: 1 }));
    assert!(!cs.contains_column(Column { kind: ColumnKind::Advice, index: 2 }));
    assert!(!cs.contains_column(Column { kind: ColumnKind::Fixed, index: 1 }));
}

#[test]
fn descriptor_refuses_columns_that_were_never_allocated() {
    let mut cs = ConstraintSystem::new();
    let a = cs.advice_column();
    let f = cs.fixed_column();
    let s = cs.selector();
    let t = cs.lookup_table_column();
    let ghost_column = Column { kind: ColumnKind::Advice, index: 7 };

    assert_eq!(cs.enable_equality(ghost_column), Err(ConfigError::UndeclaredColumn));
    assert_eq!(cs.enable_equality(a), Ok(()));
    assert_eq!(cs.enable_constant(a), Err(ConfigError::UndeclaredColumn));
    assert_eq!(
        cs.enable_constant(Column { kind: ColumnKind::Fixed, index: 3 }),
        Err(ConfigError::UndeclaredColumn)
    );
    assert_eq!(cs.enable_constant(f), Ok(()));
    assert_eq!(cs.equality, vec![a, f]);
    assert_eq!(cs.constants, vec![f]);

    assert_eq!(cs.create_gate("empty", vec![]), Err(ConfigError::EmptyGate));
    let bad = Expression::Selector(s).times(Expression::query(a).minus(Expression::query(ghost_column)));
    assert!(!bad.is_declared_in(&cs));
    assert_eq!(cs.create_gate("bad", vec![bad]), Err(ConfigError::UndeclaredColumn));
    let unknown_selector = Expression::Selector(Selector { index: 5 }).times(Expression::query(a));
    assert_eq!(cs.create_gate("bad", vec![unknown_selector]), Err(ConfigError::UndeclaredColumn));
    assert!(cs.gates.is_empty());
    let good = Expression::Selector(s).times(Expression::query(a).plus(Expression::query_at(a, 1)));
    assert!(good.is_declared_in(&cs));
    assert!(cs.all_declared(&vec![good.duplicate(), good.clone()]));
    assert_eq!(cs.create_gate("good", vec![good]), Ok(()));
    assert_eq!(cs.gates.len(), 1);
    assert_eq!(cs.gates[0].name, "good");

    assert_eq!(cs.lookup(Expression::query(ghost_column), t), Err(ConfigError::UndeclaredColumn));
    assert_eq!(
        cs.lookup(Expression::query(a), TableColumn { index: 1 }),
        Err(ConfigError::UndeclaredColumn)
    );
    assert_eq!(cs.lookup(Expression::query(a), t), Ok(()));
    assert_eq!(cs.lookups.len(), 1);
}

#[test]
fn expressions_are_built_as_written() {
    let a = Column { kind: ColumnKind::Advice, index: 0 };
    let b = Column { kind: ColumnKind::Advice, index: 1 };
    // a - b is a + (-b)
    match Expression::query(a).minus(Expression::query(b)) {
        Expression::Sum(l, r) => {
            assert!(matches!(*l, Expression::Query(c, 0) if c == a));
            match *r {
                Expression::Negated(n) => assert!(matches!(*n, Expression::Query(c, 0) if c == b)),
                _ => panic!("the subtrahend is negated"),
            }
        }
        _ => panic!("a difference is a sum"),
    }
    assert!(matches!(Expression::query(a).times(Expression::query(b)), Expression::Product(_, _)));
    assert!(matches!(Expression::query(a).plus(Expression::query(b)), Expression::Sum(_, _)));
    assert!(matches!(Expression::query_at(b, -1), Expression::Query(c, -1) if c == b));
}

#[test]
fn record_keeps_what_synthesis_lays_out() {
    let mut cs = ConstraintSystem::new();
    let a = cs.advice_column();
    let b = cs.advice_column();
    let i = cs.instance_column();
    let s = cs.selector();
    let t = cs.lookup_table_column();
    cs.enable_equality(a).unwrap();
    cs.enable_equality(i).unwrap();
    let mut record = Layouter::new(&cs);
    assert_eq!(record.equality, vec![a, i]);
    assert!(record.in_permutation(a) && record.in_permutation(i) && !record.in_permutation(b));

    let cell = record.assign_advice(a, 3, Some(Scalar::from_u64(9)));
    assert_eq!(cell, Ok(Cell { column: a, row: 3 }));
    assert_eq!(record.assign_advice(i, 0, None), Err(SynthesisError::WrongColumnKind));
    assert_eq!(record.assigned.len(), 1);
    assert_eq!(record.assigned[0].cell, Cell { column: a, row: 3 });
    assert_eq!(record.assigned[0].value, Some(Scalar::from_u64(9)));

    record.enable_selector(s, 3);
    assert_eq!(record.selectors[0].selector, s);
    assert_eq!(record.selectors[0].row, 3);
    record.assign_table(t, 0, Scalar::zero());
    assert_eq!(record.tables[0].table, t);

    let other = record.assign_advice(b, 3, None).unwrap();
    assert_eq!(
        record.constrain_equal(cell.unwrap(), other),
        Err(SynthesisError::ColumnNotInPermutation)
    );
    assert_eq!(record.constrain_instance(other, i, 0), Err(SynthesisError::ColumnNotInPermutation));
    assert_eq!(record.constrain_instance(cell.unwrap(), a, 0), Err(SynthesisError::WrongColumnKind));
    assert!(record.copies.is_empty());
    assert_eq!(record.constrain_instance(cell.unwrap(), i, 2), Ok(()));
    assert_eq!(record.copies[0].left, Cell { column: a, row: 3 });
    assert_eq!(record.copies[0].right, Cell { column: i, row: 2 });
    assert_eq!(record.constrain_equal(cell.unwrap(), Cell { column: a, row: 4 }), Ok(()));
    assert_eq!(record.copies.len(), 2);
}

#[test]
fn a_proof_made_before_is_verified_with_new_keys() {
    let mut p = Pipeline::new();
    assert_eq!(p.advance(Stage::LoadProof), Err(PipelineError::Configuration));
    p.advance(Stage::Setup { k: 8 }).unwrap();
    assert_eq!(p.advance(Stage::LoadProof), Err(PipelineError::Configuration));
    p.advance(Stage::KeyGen { rows: 4 }).unwrap();
    assert_eq!(p.advance(Stage::Verify), Err(PipelineError::Configuration));
    assert_eq!(p.advance(Stage::LoadProof), Ok(()));
    assert_eq!(p, Pipeline { params: Some(8), keys: Some(8), proof: true });
    assert_eq!(p.advance(Stage::Verify), Ok(()));
}
