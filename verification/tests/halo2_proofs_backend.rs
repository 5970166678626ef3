//! Runs the range circuit of `range_proof` through the mock prover of
//! `halo2_proofs`: the descriptor and the synthesis record of the library are
//! installed in the backend cell by cell, and the backend checks every gate,
//! lookup and equality constraint against the witness.

use std::collections::HashMap;

use bid_circuits::field::Scalar;
use bid_circuits::plonk::{
    ColumnKind, ConstraintSystem as Descriptor, Expression as Poly,
};
use bid_circuits::range_proof::{RangeProofCircuit, RangeProofConfig};
use bid_circuits::synthesis::{Layouter as Record, SynthesisError};
use halo2_proofs::circuit::{Cell, Layouter, SimpleFloorPlanner, Value};
use halo2_proofs::dev::MockProver;
use halo2_proofs::plonk::{
    Advice, Circuit, Column, ConstraintSystem, Error, Expression, Fixed, Instance, Selector,
    TableColumn, VirtualCells,
};
use halo2_proofs::poly::Rotation;
use halo2curves::bn256::Fr;

fn to_fr(s: &Scalar) -> Fr {
    Fr::from_raw(s.to_limbs())
}

#[derive(Clone)]
struct Installed {
    advice: Vec<Column<Advice>>,
    fixed: Vec<Column<Fixed>>,
    instance: Vec<Column<Instance>>,
    selectors: Vec<Selector>,
    tables: Vec<TableColumn>,
    descriptor: Descriptor,
}

fn lower(
    e: &Poly,
    meta: &mut VirtualCells<'_, Fr>,
    advice: &[Column<Advice>],
    fixed: &[Column<Fixed>],
    instance: &[Column<Instance>],
    selectors: &[Selector],
) -> Expression<Fr> {
    match e {
        Poly::Constant(c) => Expression::Constant(to_fr(c)),
        Poly::Selector(s) => meta.query_selector(selectors[s.index]),
        Poly::Query(c, rot) => match c.kind {
            ColumnKind::Advice => meta.query_advice(advice[c.index], Rotation(*rot)),
            ColumnKind::Fixed => {
                // this backend reads a fixed column on the current row only
                assert_eq!(*rot, 0);
                meta.query_fixed(fixed[c.index])
            }
            ColumnKind::Instance => meta.query_instance(instance[c.index], Rotation(*rot)),
        },
        Poly::Negated(a) => -lower(a, meta, advice, fixed, instance, selectors),
        Poly::Sum(a, b) => {
            lower(a, meta, advice, fixed, instance, selectors)
                + lower(b, meta, advice, fixed, instance, selectors)
        }
        Poly::Product(a, b) => {
            lower(a, meta, advice, fixed, instance, selectors)
                * lower(b, meta, advice, fixed, instance, selectors)
        }
    }
}

fn install(meta: &mut ConstraintSystem<Fr>, descriptor: Descriptor) -> Installed {
    let advice: Vec<Column<Advice>> = (0..descriptor.num_advice).map(|_| meta.advice_column()).collect();
    let fixed: Vec<Column<Fixed>> = (0..descriptor.num_fixed).map(|_| meta.fixed_column()).collect();
    let instance: Vec<Column<Instance>> =
        (0..descriptor.num_instance).map(|_| meta.instance_column()).collect();
    let selectors: Vec<Selector> = (0..descriptor.num_selectors).map(|_| meta.selector()).collect();
    let tables: Vec<TableColumn> =
        (0..descriptor.num_tables).map(|_| meta.lookup_table_column()).collect();
    for c in descriptor.constants.iter() {
        meta.enable_constant(fixed[c.index]);
    }
    for c in descriptor.equality.iter() {
        match c.kind {
            ColumnKind::Advice => meta.enable_equality(advice[c.index]),
            ColumnKind::Fixed => meta.enable_equality(fixed[c.index]),
            ColumnKind::Instance => meta.enable_equality(instance[c.index]),
        }
    }
    for gate in descriptor.gates.iter() {
        meta.create_gate(gate.name, |cells| {
            gate.polys
                .iter()
                .map(|p| lower(p, cells, &advice, &fixed, &instance, &selectors))
                .collect::<Vec<_>>()
        });
    }
    for lookup in descriptor.lookups.iter() {
        meta.lookup(|cells| {
            vec![(
                lower(&lookup.input, cells, &advice, &fixed, &instance, &selectors),
                tables[lookup.table.index],
            )]
        });
    }
    Installed { advice, fixed, instance, selectors, tables, descriptor }
}

fn replay(record: &Record, installed: &Installed, mut layouter: impl Layouter<Fr>) -> Result<(), Error> {
    if !record.tables.is_empty() {
        layouter.assign_table(
            || "tables",
            |mut table| {
                for entry in record.tables.iter() {
                    table.assign_cell(
                        || "entry",
                        installed.tables[entry.table.index],
                        entry.row,
                        || Value::known(to_fr(&entry.value)),
                    )?;
                }
                Ok(())
            },
        )?;
    }
    let cells = layouter.assign_region(
        || "circuit",
        |mut region| {
            for s in record.selectors.iter() {
                installed.selectors[s.selector.index].enable(&mut region, s.row)?;
            }
            let mut cells: HashMap<(usize, usize), Cell> = HashMap::new();
            for a in record.assigned.iter() {
                let value = match a.value {
                    Some(s) => Value::known(to_fr(&s)),
                    None => Value::unknown(),
                };
                let assigned = region.assign_advice(
                    || "witness",
                    installed.advice[a.cell.column.index],
                    a.cell.row,
                    || value,
                )?;
                cells.insert((a.cell.column.index, a.cell.row), assigned.cell());
            }
            for c in record.copies.iter() {
                if c.right.column.kind == ColumnKind::Advice {
                    region.constrain_equal(
                        cells[&(c.left.column.index, c.left.row)],
                        cells[&(c.right.column.index, c.right.row)],
                    )?;
                }
            }
            Ok(cells)
        },
    )?;
    for c in record.copies.iter() {
        if c.right.column.kind == ColumnKind::Instance {
            layouter.constrain_instance(
                cells[&(c.left.column.index, c.left.row)],
                installed.instance[c.right.column.index],
                c.right.row,
            )?;
        }
    }
    Ok(())
}

struct RangeBackend(RangeProofCircuit);

impl Circuit<Fr> for RangeBackend {
    type Config = (Installed, RangeProofConfig);
    type FloorPlanner = SimpleFloorPlanner;

    fn without_witnesses(&self) -> Self {
        RangeBackend(self.0.without_witnesses())
    }

    fn configure(meta: &mut ConstraintSystem<Fr>) -> Self::Config {
        let mut descriptor = Descriptor::new();
        let config = RangeProofConfig::configure(&mut descriptor);
        (install(meta, descriptor), config)
    }

    fn synthesize(&self, config: Self::Config, layouter: impl Layouter<Fr>) -> Result<(), Error> {
        let (installed, config) = config;
        let mut record = Record::new(&installed.descriptor);
        self.0.synthesize(config, &mut record).map_err(|_| Error::Synthesis)?;
        replay(&record, &installed, layouter)
    }
}

fn public_inputs(circuit: &RangeProofCircuit) -> Vec<Vec<Fr>> {
    circuit.instances().iter().map(|column| column.iter().map(to_fr).collect()).collect()
}

fn accepts(circuit: RangeProofCircuit, instances: Vec<Vec<Fr>>) -> bool {
    let prover = MockProver::run(4, &RangeBackend(circuit), instances).unwrap();
    prover.verify().is_ok()
}

#[test]
fn range_proof_test_valid_range() {
    // Test: 50 is within [10, 100]
    let circuit = RangeProofCircuit::new(50, 10, 100);
    let instances = public_inputs(&circuit);

    let prover = MockProver::run(4, &RangeBackend(circuit), instances).unwrap();
    assert!(prover.verify().is_ok(), "Valid range proof should pass");
}

#[test]
fn test_value_equals_min() {
    // Test: 10 is within [10, 100] (boundary case)
    let circuit = RangeProofCircuit::new(10, 10, 100);
    let instances = public_inputs(&circuit);

    let prover = MockProver::run(4, &RangeBackend(circuit), instances).unwrap();
    assert!(prover.verify().is_ok(), "Value at min boundary should pass");
}

#[test]
fn test_value_equals_max() {
    // Test: 100 is within [10, 100] (boundary case)
    let circuit = RangeProofCircuit::new(100, 10, 100);
    let instances = public_inputs(&circuit);

    let prover = MockProver::run(4, &RangeBackend(circuit), instances).unwrap();
    assert!(prover.verify().is_ok(), "Value at max boundary should pass");
}

#[test]
fn value_below_min_is_rejected() {
    let circuit = RangeProofCircuit::new(5, 10, 100);
    let instances = public_inputs(&circuit);
    assert!(!accepts(circuit, instances));
}

#[test]
fn value_above_max_is_rejected() {
    let circuit = RangeProofCircuit::new(101, 10, 100);
    let instances = public_inputs(&circuit);
    assert!(!accepts(circuit, instances));
}

#[test]
fn value_between_the_bounds_but_not_on_them_is_accepted() {
    // A gate that only multiplied the two differences would accept the bounds alone.
    for value in [11u64, 37, 99] {
        let circuit = RangeProofCircuit::new(value, 10, 100);
        let instances = public_inputs(&circuit);
        assert!(accepts(circuit, instances));
    }
}

#[test]
fn full_width_range_is_accepted() {
    let circuit = RangeProofCircuit::new(u64::MAX, 0, u64::MAX);
    let instances = public_inputs(&circuit);
    assert!(accepts(circuit, instances));
    let circuit = RangeProofCircuit::new(0, 0, u64::MAX);
    let instances = public_inputs(&circuit);
    assert!(accepts(circuit, instances));
}

#[test]
fn wrong_order_of_public_inputs_is_rejected() {
    let circuit = RangeProofCircuit::new(50, 10, 100);
    // [value, min, max] in place of [min, max, value]
    let swapped = vec![vec![Fr::from(50), Fr::from(10), Fr::from(100)]];
    assert!(!accepts(circuit, swapped));
}

#[test]
fn public_inputs_of_another_claim_are_rejected() {
    let circuit = RangeProofCircuit::new(50, 10, 100);
    let other = vec![vec![Fr::from(10), Fr::from(100), Fr::from(51)]];
    assert!(!accepts(circuit, other));
}

#[test]
fn instances_are_min_max_value() {
    let circuit = RangeProofCircuit::new(50, 10, 100);
    let instances = circuit.instances();
    assert_eq!(instances.len(), 1);
    assert_eq!(instances[0], vec![Scalar::from_u64(10), Scalar::from_u64(100), Scalar::from_u64(50)]);
    assert_eq!(public_inputs(&circuit), vec![vec![Fr::from(10), Fr::from(100), Fr::from(50)]]);
}

#[test]
fn instances_without_witnesses_are_zero() {
    let circuit = RangeProofCircuit::default();
    assert_eq!(circuit.instances(), vec![vec![Scalar::zero(), Scalar::zero(), Scalar::zero()]]);
    let blank = RangeProofCircuit::new(50, 10, 100).without_witnesses();
    assert!(blank.bid_value.is_none() && blank.min_bid.is_none() && blank.max_bid.is_none());
}

#[test]
fn descriptor_of_the_range_circuit() {
    let mut descriptor = Descriptor::new();
    let config = RangeProofConfig::configure(&mut descriptor);
    assert_eq!(descriptor.num_advice, 69);
    assert_eq!(descriptor.num_instance, 1);
    assert_eq!(descriptor.num_fixed, 1);
    assert_eq!(descriptor.num_selectors, 1);
    assert_eq!(descriptor.num_tables, 1);
    assert_eq!(descriptor.gates.len(), 1);
    assert_eq!(descriptor.gates[0].name, "range_check");
    assert_eq!(descriptor.gates[0].polys.len(), 4);
    assert_eq!(descriptor.lookups.len(), 64);
    assert_eq!(
        descriptor.equality,
        vec![config.value, config.min_bound, config.max_bound, config.instance, config.constant]
    );
    assert_eq!(config.value.index, 0);
    assert_eq!(config.min_bound.index, 1);
    assert_eq!(config.max_bound.index, 2);
    assert_eq!(config.diff_min.index, 3);
    assert_eq!(config.diff_max.index, 4);
    assert_eq!(config.limbs_min.len(), 32);
    assert_eq!(config.limbs_max[31].index, 68);
}

#[test]
fn synthesis_needs_the_descriptor_of_the_circuit() {
    let mut descriptor = Descriptor::new();
    let config = RangeProofConfig::configure(&mut descriptor);
    // a record of a descriptor that enabled no equality cannot bind public inputs
    let mut record = Record::new(&Descriptor::new());
    let circuit = RangeProofCircuit::new(50, 10, 100);
    assert_eq!(
        circuit.synthesize(config.clone(), &mut record),
        Err(SynthesisError::ColumnNotInPermutation)
    );
    assert!(record.assigned.is_empty() && record.copies.is_empty());
    let mut record = Record::new(&descriptor);
    assert_eq!(circuit.synthesize(config, &mut record), Ok(()));
    assert_eq!(record.assigned.len(), 69);
    assert_eq!(record.copies.len(), 3);
    assert_eq!(record.selectors.len(), 1);
    assert_eq!(record.tables.len(), 4);
    // diff_min = 40 = 0 + 2*4 + 2*16, diff_max = 50 = 2 + 0*4 + 3*16
    assert_eq!(record.assigned[3].value, Some(Scalar::from_u64(40)));
    assert_eq!(record.assigned[4].value, Some(Scalar::from_u64(50)));
    assert_eq!(record.assigned[5].value, Some(Scalar::from_u64(0)));
    assert_eq!(record.assigned[6].value, Some(Scalar::from_u64(2)));
    assert_eq!(record.assigned[7].value, Some(Scalar::from_u64(2)));
    assert_eq!(record.assigned[37].value, Some(Scalar::from_u64(2)));
    assert_eq!(record.assigned[38].value, Some(Scalar::from_u64(0)));
    assert_eq!(record.assigned[39].value, Some(Scalar::from_u64(3)));
}
