//! The range circuit: a bid lies between a public minimum and a public maximum.
//!
//! Public inputs, in order: `[min_bid, max_bid, bid_value]`.
//!
//! The circuit holds the two differences `bid_value - min_bid` and
//! `max_bid - bid_value` as auxiliary witnesses. A gate ties each difference to
//! the cells it is computed from; a second pair of constraints ties each
//! difference to 32 two-bit limbs, every one of which is looked up in the table
//! `{0, 1, 2, 3}`. A difference that wrapped around the field's modulus is not
//! a sum of such limbs, so only bids inside the range have a satisfying
//! witness.

use vstd::prelude::*;
use crate::decompose::{decompose, limb, recompose, recompose_expression, LIMBS, LIMB_RANGE};
use crate::field::{fsub, Scalar};
use crate::plonk::{Cell, Column, ColumnKind, ConstraintSystem, Expression, Selector, TableColumn};
use crate::synthesis::{
    witness,
    witness_or_zero,
    EnabledSelector,
    EqualityConstraint,
    Layouter,
    SynthesisError,
};

verus! {

/// The number of advice columns of the range circuit: the bid, the two bounds,
/// the two differences and 32 limbs for each difference.
pub const RANGE_ADVICE_COLUMNS: usize = 69;

/// The number of rows that the range circuit lays out: the witnesses take
/// row 0, and the limb table its four entries.
pub const RANGE_ROWS: usize = 4;

/// The advice column with the given index.
pub open spec fn advice(index: int) -> Column {
    Column { kind: ColumnKind::Advice, index: index as usize }
}

/// The columns, selector and lookup table of the range circuit.
#[derive(Clone, Debug)]
pub struct RangeProofConfig {
    /// Column for the bid value.
    pub value: Column,
    /// Column for the minimum bound.
    pub min_bound: Column,
    /// Column for the maximum bound.
    pub max_bound: Column,
    /// Column for the difference `value - min`.
    pub diff_min: Column,
    /// Column for the difference `max - value`.
    pub diff_max: Column,
    /// Instance column for the public inputs.
    pub instance: Column,
    /// Selector of the range gate.
    pub selector: Selector,
    /// Fixed column for constants.
    pub constant: Column,
    /// Columns for the two-bit limbs of `value - min`, least significant first.
    pub limbs_min: Vec<Column>,
    /// Columns for the two-bit limbs of `max - value`, least significant first.
    pub limbs_max: Vec<Column>,
    /// The lookup table of admissible limbs.
    pub table: TableColumn,
}

impl RangeProofConfig {
    /// The advice columns are consecutive, starting at the bid's column, and
    /// the other columns have the kinds their names say.
    pub open spec fn wf(self) -> bool {
        let a = self.value.index as int;
        &&& a + RANGE_ADVICE_COLUMNS <= usize::MAX
        &&& self.value == advice(a)
        &&& self.min_bound == advice(a + 1)
        &&& self.max_bound == advice(a + 2)
        &&& self.diff_min == advice(a + 3)
        &&& self.diff_max == advice(a + 4)
        &&& self.limbs_min@.len() == LIMBS
        &&& self.limbs_max@.len() == LIMBS
        &&& forall|j: int| 0 <= j < LIMBS ==> #[trigger] self.limbs_min@[j] == advice(a + 5 + j)
        &&& forall|j: int| 0 <= j < LIMBS ==> #[trigger] self.limbs_max@[j] == advice(a + 37 + j)
        &&& self.instance.kind == ColumnKind::Instance
        &&& self.constant.kind == ColumnKind::Fixed
    }

    /// The four polynomials of the range gate: each difference equals what it
    /// is named after, and each difference equals the recomposition of its
    /// limbs.
    pub open spec fn polys(self) -> Seq<Expression> {
        let s = Expression::Selector(self.selector);
        seq![
            Expression::product(
                s,
                Expression::difference(
                    Expression::cur(self.diff_min),
                    Expression::difference(
                        Expression::cur(self.value),
                        Expression::cur(self.min_bound),
                    ),
                ),
            ),
            Expression::product(
                s,
                Expression::difference(
                    Expression::cur(self.diff_max),
                    Expression::difference(
                        Expression::cur(self.max_bound),
                        Expression::cur(self.value),
                    ),
                ),
            ),
            Expression::product(
                s,
                Expression::difference(
                    Expression::cur(self.diff_min),
                    recompose(self.limbs_min@, LIMBS as nat),
                ),
            ),
            Expression::product(
                s,
                Expression::difference(
                    Expression::cur(self.diff_max),
                    recompose(self.limbs_max@, LIMBS as nat),
                ),
            ),
        ]
    }

    /// What configuration adds to a descriptor: 69 advice columns, one
    /// instance column, one fixed column, one selector and one table column;
    /// equality on the bid, the bounds, the instance column and the constant
    /// column; the range gate; and one lookup for each limb column.
    pub open spec fn configures(self, before: ConstraintSystem, after: ConstraintSystem) -> bool {
        let g0 = before.gates@.len() as int;
        let l0 = before.lookups@.len() as int;
        &&& self.value.index == before.num_advice
        &&& self.instance == (Column { kind: ColumnKind::Instance, index: before.num_instance })
        &&& self.constant == (Column { kind: ColumnKind::Fixed, index: before.num_fixed })
        &&& self.selector == (Selector { index: before.num_selectors })
        &&& self.table == (TableColumn { index: before.num_tables })
        &&& after.num_advice == before.num_advice + RANGE_ADVICE_COLUMNS
        &&& after.num_fixed == before.num_fixed + 1
        &&& after.num_instance == before.num_instance + 1
        &&& after.num_selectors == before.num_selectors + 1
        &&& after.num_tables == before.num_tables + 1
        &&& after.equality@ == before.equality@ + seq![
            self.value,
            self.min_bound,
            self.max_bound,
            self.instance,
            self.constant,
        ]
        &&& after.constants@ == before.constants@.push(self.constant)
        &&& after.gates@.len() == g0 + 1
        &&& forall|g: int| 0 <= g < g0 ==> #[trigger] after.gates@[g] == before.gates@[g]
        &&& after.gates@[g0].name@ == "range_check"@
        &&& after.gates@[g0].polys@ == self.polys()
        &&& after.lookups@.len() == l0 + 2 * LIMBS
        &&& forall|l: int| 0 <= l < l0 ==> #[trigger] after.lookups@[l] == before.lookups@[l]
        &&& forall|j: int|
            0 <= j < LIMBS ==> (#[trigger] after.lookups@[l0 + j]).input == Expression::cur(
                self.limbs_min@[j],
            ) && after.lookups@[l0 + j].table == self.table
        &&& forall|j: int|
            0 <= j < LIMBS ==> (#[trigger] after.lookups@[l0 + LIMBS + j]).input
                == Expression::cur(self.limbs_max@[j]) && after.lookups@[l0 + LIMBS + j].table
                == self.table
    }

    /// Allocates `LIMBS` consecutive advice columns.
    fn limb_columns(meta: &mut ConstraintSystem) -> (limbs: Vec<Column>)
        requires
            old(meta).wf(),
            old(meta).num_advice + LIMBS <= usize::MAX,
        ensures
            limbs@.len() == LIMBS,
            forall|j: int|
                0 <= j < LIMBS ==> #[trigger] limbs@[j] == advice(old(meta).num_advice + j),
            final(meta).num_advice == old(meta).num_advice + LIMBS,
            final(meta).num_fixed == old(meta).num_fixed,
            final(meta).num_instance == old(meta).num_instance,
            final(meta).num_selectors == old(meta).num_selectors,
            final(meta).num_tables == old(meta).num_tables,
            final(meta).same_constraints(*old(meta)),
            final(meta).wf(),
    {
        let mut limbs: Vec<Column> = Vec::new();
        let mut j: usize = 0;
        while j < LIMBS
            invariant
                j <= LIMBS,
                limbs@.len() == j,
                old(meta).num_advice + LIMBS <= usize::MAX,
                forall|i: int| 0 <= i < j ==> #[trigger] limbs@[i] == advice(old(meta).num_advice + i),
                meta.num_advice == old(meta).num_advice + j,
                meta.num_fixed == old(meta).num_fixed,
                meta.num_instance == old(meta).num_instance,
                meta.num_selectors == old(meta).num_selectors,
                meta.num_tables == old(meta).num_tables,
                meta.same_constraints(*old(meta)),
                meta.wf(),
            decreases LIMBS - j,
        {
            let c = meta.advice_column();
            limbs.push(c);
            j = j + 1;
        }
        limbs
    }

    /// Registers one lookup in `table` for each of the limb columns.
    fn limb_lookups(meta: &mut ConstraintSystem, limbs: &Vec<Column>, table: TableColumn)
        requires
            old(meta).wf(),
            limbs@.len() == LIMBS,
            forall|j: int| 0 <= j < LIMBS ==> old(meta).has_column(#[trigger] limbs@[j]),
            table.index < old(meta).num_tables,
        ensures
            final(meta).lookups@.len() == old(meta).lookups@.len() + LIMBS,
            forall|l: int|
                0 <= l < old(meta).lookups@.len() ==> #[trigger] final(meta).lookups@[l] == old(
                    meta,
                ).lookups@[l],
            forall|j: int|
                0 <= j < LIMBS ==> (#[trigger] final(meta).lookups@[old(meta).lookups@.len()
                    + j]).input == Expression::cur(limbs@[j]) && final(meta).lookups@[old(
                    meta,
                ).lookups@.len() + j].table == table,
            final(meta).same_columns(*old(meta)),
            final(meta).equality == old(meta).equality,
            final(meta).constants == old(meta).constants,
            final(meta).gates == old(meta).gates,
            final(meta).wf(),
    {
        let ghost l0 = meta.lookups@.len() as int;
        let mut j: usize = 0;
        while j < LIMBS
            invariant
                j <= LIMBS,
                limbs@.len() == LIMBS,
                l0 == old(meta).lookups@.len(),
                forall|i: int| 0 <= i < LIMBS ==> old(meta).has_column(#[trigger] limbs@[i]),
                table.index < old(meta).num_tables,
                meta.lookups@.len() == l0 + j,
                forall|l: int|
                    0 <= l < l0 ==> #[trigger] meta.lookups@[l] == old(meta).lookups@[l],
                forall|i: int|
                    0 <= i < j ==> (#[trigger] meta.lookups@[l0 + i]).input == Expression::cur(
                        limbs@[i],
                    ) && meta.lookups@[l0 + i].table == table,
                meta.same_columns(*old(meta)),
                meta.equality == old(meta).equality,
                meta.constants == old(meta).constants,
                meta.gates == old(meta).gates,
                meta.wf(),
            decreases LIMBS - j,
        {
            let ghost prev = *meta;
            assert(old(meta).has_column(limbs@[j as int]));
            let r = meta.lookup(Expression::query(limbs[j]), table);
            assert(r.is_ok());
            assert forall|i: int| 0 <= i < j + 1 implies (#[trigger] meta.lookups@[l0 + i]).input
                == Expression::cur(limbs@[i]) && meta.lookups@[l0 + i].table == table by {
                if i < j {
                    assert(meta.lookups@[l0 + i] == prev.lookups@[l0 + i]);
                }
            }
            j = j + 1;
        }
    }

    /// Creates the constraint system configuration of the range circuit.
    pub fn configure(meta: &mut ConstraintSystem) -> (cfg: RangeProofConfig)
        requires
            old(meta).wf(),
            old(meta).num_advice + RANGE_ADVICE_COLUMNS <= usize::MAX,
            old(meta).num_fixed < usize::MAX,
            old(meta).num_instance < usize::MAX,
            old(meta).num_selectors < usize::MAX,
            old(meta).num_tables < usize::MAX,
        ensures
            cfg.wf(),
            cfg.configures(*old(meta), *final(meta)),
            final(meta).wf(),
    {
        let value = meta.advice_column();
        let min_bound = meta.advice_column();
        let max_bound = meta.advice_column();
        let diff_min = meta.advice_column();
        let diff_max = meta.advice_column();
        let limbs_min = Self::limb_columns(meta);
        let limbs_max = Self::limb_columns(meta);
        let instance = meta.instance_column();
        let selector = meta.selector();
        let constant = meta.fixed_column();
        let table = meta.lookup_table_column();

        // Equality lets the bid and the bounds be bound to the public inputs.
        let r = meta.enable_equality(value);
        assert(r.is_ok());
        let r = meta.enable_equality(min_bound);
        assert(r.is_ok());
        let r = meta.enable_equality(max_bound);
        assert(r.is_ok());
        let r = meta.enable_equality(instance);
        assert(r.is_ok());
        let r = meta.enable_constant(constant);
        assert(r.is_ok());

        let cfg = RangeProofConfig {
            value,
            min_bound,
            max_bound,
            diff_min,
            diff_max,
            instance,
            selector,
            constant,
            limbs_min,
            limbs_max,
            table,
        };
        assert(cfg.wf());
        assert(meta.equality@ =~= old(meta).equality@ + seq![
            value,
            min_bound,
            max_bound,
            instance,
            constant,
        ]);

        let mut polys: Vec<Expression> = Vec::new();
        // diff_min = value - min
        polys.push(
            Expression::Selector(selector).times(
                Expression::query(diff_min).minus(
                    Expression::query(value).minus(Expression::query(min_bound)),
                ),
            ),
        );
        // diff_max = max - value
        polys.push(
            Expression::Selector(selector).times(
                Expression::query(diff_max).minus(
                    Expression::query(max_bound).minus(Expression::query(value)),
                ),
            ),
        );
        // each difference is the sum of its limbs
        polys.push(
            Expression::Selector(selector).times(
                Expression::query(diff_min).minus(recompose_expression(&cfg.limbs_min)),
            ),
        );
        polys.push(
            Expression::Selector(selector).times(
                Expression::query(diff_max).minus(recompose_expression(&cfg.limbs_max)),
            ),
        );
        assert(polys@ =~= cfg.polys());
        proof {
            Self::lemma_polys_declared(cfg, *meta);
        }
        let r = meta.create_gate("range_check", polys);
        assert(r.is_ok());

        Self::limb_lookups(meta, &cfg.limbs_min, table);
        Self::limb_lookups(meta, &cfg.limbs_max, table);
        cfg
    }

    /// The recomposing polynomial queries the limb columns only.
    proof fn lemma_recompose_declared(limbs: Seq<Column>, n: nat, cs: ConstraintSystem)
        requires
            n <= limbs.len(),
            forall|j: int| 0 <= j < n ==> cs.has_column(#[trigger] limbs[j]),
        ensures
            recompose(limbs, n).declared_in(cs),
        decreases n,
    {
        if n == 0 {
            reveal_with_fuel(Expression::declared_in, 1);
        } else {
            Self::lemma_recompose_declared(limbs, (n - 1) as nat, cs);
            reveal_with_fuel(Expression::declared_in, 3);
        }
    }

    /// The polynomials of the range gate query allocated columns only.
    proof fn lemma_polys_declared(cfg: RangeProofConfig, cs: ConstraintSystem)
        requires
            cfg.wf(),
            cfg.value.index + RANGE_ADVICE_COLUMNS <= cs.num_advice,
            cfg.selector.index < cs.num_selectors,
        ensures
            forall|p: int| 0 <= p < cfg.polys().len() ==> (#[trigger] cfg.polys()[p]).declared_in(cs),
    {
        Self::lemma_recompose_declared(cfg.limbs_min@, LIMBS as nat, cs);
        Self::lemma_recompose_declared(cfg.limbs_max@, LIMBS as nat, cs);
        reveal_with_fuel(Expression::declared_in, 6);
        assert(cfg.polys()[0].declared_in(cs));
        assert(cfg.polys()[1].declared_in(cs));
        assert(cfg.polys()[2].declared_in(cs));
        assert(cfg.polys()[3].declared_in(cs));
    }
}

/// The `j`-th two-bit limb of the low 64 bits of a difference, when the
/// difference is known.
pub open spec fn limb_of(d: Option<nat>, j: int) -> Option<nat> {
    match d {
        Some(x) => Some(limb(x % 0x1_0000_0000_0000_0000, j as nat)),
        None => None,
    }
}

/// The field difference of two witnesses, when both are known.
pub open spec fn witness_diff(a: Option<Scalar>, b: Option<Scalar>) -> Option<nat> {
    if a.is_some() && b.is_some() {
        Some(fsub(a.unwrap().value() as int, b.unwrap().value() as int) as nat)
    } else {
        None
    }
}

/// Range proof circuit: proves that a bid value falls within
/// `[min_bid, max_bid]`. A field that is `None` is a witness that is not
/// known.
#[derive(Clone, Copy, Debug)]
pub struct RangeProofCircuit {
    /// The bid value (public).
    pub bid_value: Option<Scalar>,
    /// Minimum allowed bid (public).
    pub min_bid: Option<Scalar>,
    /// Maximum allowed bid (public).
    pub max_bid: Option<Scalar>,
}

impl Default for RangeProofCircuit {
    fn default() -> (c: Self)
        ensures
            c.bid_value.is_none(),
            c.min_bid.is_none(),
            c.max_bid.is_none(),
    {
        RangeProofCircuit { bid_value: None, min_bid: None, max_bid: None }
    }
}

impl RangeProofCircuit {
    /// The public inputs as integers: one instance column holding
    /// `[min_bid, max_bid, bid_value]`, an unknown value standing as zero.
    pub open spec fn public_inputs(self) -> Seq<Seq<nat>> {
        seq![
            seq![
                witness_or_zero(self.min_bid),
                witness_or_zero(self.max_bid),
                witness_or_zero(self.bid_value),
            ],
        ]
    }

    /// The witness that synthesis assigns to the `i`-th advice column of the
    /// circuit: the bid, the two bounds, the two differences, then the limbs of
    /// the first difference and those of the second.
    pub open spec fn expected_witness(self, i: int) -> Option<nat> {
        if i == 0 {
            witness(self.bid_value)
        } else if i == 1 {
            witness(self.min_bid)
        } else if i == 2 {
            witness(self.max_bid)
        } else if i == 3 {
            witness_diff(self.bid_value, self.min_bid)
        } else if i == 4 {
            witness_diff(self.max_bid, self.bid_value)
        } else if i < 5 + LIMBS {
            limb_of(witness_diff(self.bid_value, self.min_bid), i - 5)
        } else {
            limb_of(witness_diff(self.max_bid, self.bid_value), i - 5 - LIMBS)
        }
    }

    /// What synthesis adds to a record: one assignment on row 0 of each advice
    /// column, the selector on row 0, the four table entries, and the three
    /// bindings of the public inputs, in the order minimum, maximum, bid.
    pub open spec fn laid_out(self, cfg: RangeProofConfig, before: Layouter, after: Layouter) -> bool {
        let n0 = before.assigned@.len() as int;
        let t0 = before.tables@.len() as int;
        &&& after.equality == before.equality
        &&& after.assigned@.len() == n0 + RANGE_ADVICE_COLUMNS
        &&& forall|i: int| 0 <= i < n0 ==> #[trigger] after.assigned@[i] == before.assigned@[i]
        &&& forall|i: int|
            0 <= i < RANGE_ADVICE_COLUMNS ==> (#[trigger] after.assigned@[n0 + i]).cell == (Cell {
                column: advice(cfg.value.index + i),
                row: 0,
            }) && witness(after.assigned@[n0 + i].value) == self.expected_witness(i)
        &&& after.selectors@ == before.selectors@.push(
            EnabledSelector { selector: cfg.selector, row: 0 },
        )
        &&& after.tables@.len() == t0 + LIMB_RANGE
        &&& forall|i: int| 0 <= i < t0 ==> #[trigger] after.tables@[i] == before.tables@[i]
        &&& forall|i: int|
            0 <= i < LIMB_RANGE ==> (#[trigger] after.tables@[t0 + i]).table == cfg.table
                && after.tables@[t0 + i].row == i && after.tables@[t0 + i].value.value() == i
        &&& after.copies@ == before.copies@ + seq![
            EqualityConstraint {
                left: Cell { column: cfg.min_bound, row: 0 },
                right: Cell { column: cfg.instance, row: 0 },
            },
            EqualityConstraint {
                left: Cell { column: cfg.max_bound, row: 0 },
                right: Cell { column: cfg.instance, row: 1 },
            },
            EqualityConstraint {
                left: Cell { column: cfg.value, row: 0 },
                right: Cell { column: cfg.instance, row: 2 },
            },
        ]
    }

    /// Create a new range proof circuit.
    pub fn new(bid_value: u64, min_bid: u64, max_bid: u64) -> (c: Self)
        ensures
            c.bid_value == Some(Scalar::of_u64(bid_value)),
            c.min_bid == Some(Scalar::of_u64(min_bid)),
            c.max_bid == Some(Scalar::of_u64(max_bid)),
    {
        RangeProofCircuit {
            bid_value: Some(Scalar::from_u64(bid_value)),
            min_bid: Some(Scalar::from_u64(min_bid)),
            max_bid: Some(Scalar::from_u64(max_bid)),
        }
    }

    /// The same circuit with every witness unknown.
    pub fn without_witnesses(&self) -> (c: Self)
        ensures
            c.bid_value.is_none(),
            c.min_bid.is_none(),
            c.max_bid.is_none(),
    {
        RangeProofCircuit { bid_value: None, min_bid: None, max_bid: None }
    }

    /// Get the public instances for this circuit: one column holding
    /// `[min_bid, max_bid, bid_value]`, an unknown value standing as zero.
    pub fn instances(&self) -> (r: Vec<Vec<Scalar>>)
        ensures
            r@.len() == 1,
            r@[0]@.len() == 3,
            r@[0]@[0].value() == witness_or_zero(self.min_bid),
            r@[0]@[1].value() == witness_or_zero(self.max_bid),
            r@[0]@[2].value() == witness_or_zero(self.bid_value),
            self.min_bid.is_some() ==> r@[0]@[0] == self.min_bid.unwrap(),
            self.max_bid.is_some() ==> r@[0]@[1] == self.max_bid.unwrap(),
            self.bid_value.is_some() ==> r@[0]@[2] == self.bid_value.unwrap(),
    {
        let min_val = match self.min_bid {
            Some(v) => v,
            None => Scalar::zero(),
        };
        let max_val = match self.max_bid {
            Some(v) => v,
            None => Scalar::zero(),
        };
        let value_val = match self.bid_value {
            Some(v) => v,
            None => Scalar::zero(),
        };
        // Instance order: [min_bid, max_bid, bid_value]
        let mut column: Vec<Scalar> = Vec::new();
        column.push(min_val);
        column.push(max_val);
        column.push(value_val);
        let mut r: Vec<Vec<Scalar>> = Vec::new();
        r.push(column);
        r
    }

    /// `a - b` in the field when both are known.
    fn difference(a: Option<Scalar>, b: Option<Scalar>) -> (d: Option<Scalar>)
        ensures
            witness(d) == witness_diff(a, b),
    {
        match (a, b) {
            (Some(x), Some(y)) => Some(x.sub(&y)),
            _ => None,
        }
    }

    /// Assigns the limbs of a difference to row 0 of the limb columns.
    fn assign_limbs(layouter: &mut Layouter, columns: &Vec<Column>, diff: Option<Scalar>)
        requires
            columns@.len() == LIMBS,
            forall|j: int| 0 <= j < LIMBS ==> (#[trigger] columns@[j]).kind == ColumnKind::Advice,
        ensures
            final(layouter).assigned@.len() == old(layouter).assigned@.len() + LIMBS,
            forall|i: int|
                0 <= i < old(layouter).assigned@.len() ==> #[trigger] final(layouter).assigned@[i]
                    == old(layouter).assigned@[i],
            forall|j: int|
                0 <= j < LIMBS ==> (#[trigger] final(layouter).assigned@[old(layouter).assigned@.len()
                    + j]).cell == (Cell { column: columns@[j], row: 0 }) && witness(
                    final(layouter).assigned@[old(layouter).assigned@.len() + j].value,
                ) == limb_of(witness(diff), j),
            final(layouter).equality == old(layouter).equality,
            final(layouter).selectors == old(layouter).selectors,
            final(layouter).copies == old(layouter).copies,
            final(layouter).tables == old(layouter).tables,
    {
        let ghost n0 = layouter.assigned@.len() as int;
        let digits = match diff {
            Some(d) => Some(decompose(d.low_u64())),
            None => None,
        };
        let mut j: usize = 0;
        while j < LIMBS
            invariant
                j <= LIMBS,
                columns@.len() == LIMBS,
                forall|i: int| 0 <= i < LIMBS ==> (#[trigger] columns@[i]).kind == ColumnKind::Advice,
                n0 == old(layouter).assigned@.len(),
                digits.is_some() == diff.is_some(),
                digits.is_some() ==> digits.unwrap()@.len() == LIMBS && forall|i: int|
                    0 <= i < LIMBS ==> #[trigger] digits.unwrap()@[i] == limb(
                        diff.unwrap().value() % 0x1_0000_0000_0000_0000,
                        i as nat,
                    ),
                layouter.assigned@.len() == n0 + j,
                forall|i: int|
                    0 <= i < n0 ==> #[trigger] layouter.assigned@[i] == old(layouter).assigned@[i],
                forall|i: int|
                    0 <= i < j ==> (#[trigger] layouter.assigned@[n0 + i]).cell == (Cell {
                        column: columns@[i],
                        row: 0,
                    }) && witness(layouter.assigned@[n0 + i].value) == limb_of(witness(diff), i),
                layouter.equality == old(layouter).equality,
                layouter.selectors == old(layouter).selectors,
                layouter.copies == old(layouter).copies,
                layouter.tables == old(layouter).tables,
            decreases LIMBS - j,
        {
            let ghost prev = *layouter;
            let value = match &digits {
                Some(ds) => Some(Scalar::from_u64(ds[j])),
                None => None,
            };
            assert(columns@[j as int].kind == ColumnKind::Advice);
            let r = layouter.assign_advice(columns[j], 0, value);
            assert(r.is_ok());
            assert forall|i: int| 0 <= i < j + 1 implies (#[trigger] layouter.assigned@[n0 + i]).cell
                == (Cell { column: columns@[i], row: 0 }) && witness(
                layouter.assigned@[n0 + i].value,
            ) == limb_of(witness(diff), i) by {
                if i < j {
                    assert(layouter.assigned@[n0 + i] == prev.assigned@[n0 + i]);
                }
            }
            j = j + 1;
        }
    }

    /// Fills the lookup table with the admissible limbs `0, 1, 2, 3`.
    fn assign_limb_table(layouter: &mut Layouter, table: TableColumn)
        ensures
            final(layouter).tables@.len() == old(layouter).tables@.len() + LIMB_RANGE,
            forall|i: int|
                0 <= i < old(layouter).tables@.len() ==> #[trigger] final(layouter).tables@[i]
                    == old(layouter).tables@[i],
            forall|i: int|
                0 <= i < LIMB_RANGE ==> (#[trigger] final(layouter).tables@[old(layouter).tables@.len()
                    + i]).table == table && final(layouter).tables@[old(layouter).tables@.len()
                    + i].row == i && final(layouter).tables@[old(layouter).tables@.len()
                    + i].value.value() == i,
            final(layouter).equality == old(layouter).equality,
            final(layouter).assigned == old(layouter).assigned,
            final(layouter).selectors == old(layouter).selectors,
            final(layouter).copies == old(layouter).copies,
    {
        layouter.assign_table(table, 0, Scalar::from_u64(0));
        layouter.assign_table(table, 1, Scalar::from_u64(1));
        layouter.assign_table(table, 2, Scalar::from_u64(2));
        layouter.assign_table(table, 3, Scalar::from_u64(3));
    }

    /// Lays the circuit out: turns the selector on at row 0, assigns the bid,
    /// the bounds, the differences and their limbs on that row, fills the
    /// lookup table, and binds minimum, maximum and bid to rows 0, 1 and 2 of
    /// the instance column. Refused, with the record unchanged, when the
    /// record's descriptor did not enable equality on one of the four columns
    /// that the bindings need.
    pub fn synthesize(&self, config: RangeProofConfig, layouter: &mut Layouter) -> (r: Result<
        (),
        SynthesisError,
    >)
        requires
            config.wf(),
        ensures
            r.is_ok() <==> old(layouter).equality@.contains(config.value) && old(
                layouter,
            ).equality@.contains(config.min_bound) && old(layouter).equality@.contains(
                config.max_bound,
            ) && old(layouter).equality@.contains(config.instance),
            r.is_err() ==> r == Err::<(), SynthesisError>(SynthesisError::ColumnNotInPermutation)
                && *final(layouter) == *old(layouter),
            r.is_ok() ==> self.laid_out(config, *old(layouter), *final(layouter)),
    {
        if !layouter.in_permutation(config.value) || !layouter.in_permutation(config.min_bound)
            || !layouter.in_permutation(config.max_bound) || !layouter.in_permutation(
            config.instance,
        ) {
            return Err(SynthesisError::ColumnNotInPermutation);
        }
        let ghost n0 = layouter.assigned@.len() as int;
        // Enable the selector
        layouter.enable_selector(config.selector, 0);

        let value_cell = layouter.assign_advice(config.value, 0, self.bid_value);
        let min_cell = layouter.assign_advice(config.min_bound, 0, self.min_bid);
        let max_cell = layouter.assign_advice(config.max_bound, 0, self.max_bid);
        assert(value_cell.is_ok() && min_cell.is_ok() && max_cell.is_ok());

        // Compute and assign diff_min = value - min
        let diff_min_value = Self::difference(self.bid_value, self.min_bid);
        let r = layouter.assign_advice(config.diff_min, 0, diff_min_value);
        assert(r.is_ok());

        // Compute and assign diff_max = max - value
        let diff_max_value = Self::difference(self.max_bid, self.bid_value);
        let r = layouter.assign_advice(config.diff_max, 0, diff_max_value);
        assert(r.is_ok());

        let ghost five = *layouter;
        assert(five.assigned@.len() == n0 + 5);
        Self::assign_limbs(layouter, &config.limbs_min, diff_min_value);
        let ghost mid = *layouter;
        Self::assign_limbs(layouter, &config.limbs_max, diff_max_value);
        Self::assign_limb_table(layouter, config.table);

        // Now constrain instances after the region is done
        let r = layouter.constrain_instance(Cell { column: config.min_bound, row: 0 }, config.instance, 0);
        assert(r.is_ok());
        let r = layouter.constrain_instance(Cell { column: config.max_bound, row: 0 }, config.instance, 1);
        assert(r.is_ok());
        let r = layouter.constrain_instance(Cell { column: config.value, row: 0 }, config.instance, 2);
        assert(r.is_ok());

        proof {
            let a = config.value.index as int;
            assert forall|i: int| 0 <= i < RANGE_ADVICE_COLUMNS implies (
            #[trigger] layouter.assigned@[n0 + i]).cell == (Cell {
                column: advice(a + i),
                row: 0,
            }) && witness(layouter.assigned@[n0 + i].value) == self.expected_witness(i) by {
                if i < 5 {
                    assert(layouter.assigned@[n0 + i] == mid.assigned@[n0 + i]);
                    assert(mid.assigned@[n0 + i] == five.assigned@[n0 + i]);
                } else if i < 5 + LIMBS {
                    assert(layouter.assigned@[n0 + i] == mid.assigned@[n0 + i]);
                    assert(mid.assigned@[n0 + 5 + (i - 5)].cell == (Cell {
                        column: config.limbs_min@[i - 5],
                        row: 0,
                    }));
                } else {
                    assert(layouter.assigned@[n0 + 5 + LIMBS + (i - 5 - LIMBS)].cell == (Cell {
                        column: config.limbs_max@[i - 5 - LIMBS],
                        row: 0,
                    }));
                }
            }
            assert forall|i: int| 0 <= i < n0 implies #[trigger] layouter.assigned@[i] == old(
                layouter,
            ).assigned@[i] by {
                assert(layouter.assigned@[i] == mid.assigned@[i]);
                assert(mid.assigned@[i] == five.assigned@[i]);
            }
            assert(layouter.copies@ =~= old(layouter).copies@ + seq![
                EqualityConstraint {
                    left: Cell { column: config.min_bound, row: 0 },
                    right: Cell { column: config.instance, row: 0 },
                },
                EqualityConstraint {
                    left: Cell { column: config.max_bound, row: 0 },
                    right: Cell { column: config.instance, row: 1 },
                },
                EqualityConstraint {
                    left: Cell { column: config.value, row: 0 },
                    right: Cell { column: config.instance, row: 2 },
                },
            ]);
        }
        Ok(())
    }
}

} // verus!
