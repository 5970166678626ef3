//! The constraint descriptor: columns, selectors, gates and lookups of one
//! circuit shape, and what it means for an execution trace to satisfy them.

use vstd::prelude::*;
use vstd::arithmetic::div_mod::lemma_small_mod;
use crate::field::{
    fadd,
    fmul,
    fneg,
    fsub,
    lemma_add_negation,
    lemma_difference_vanishes,
    lemma_field_bounds,
    lemma_mul_unit,
    modulus,
    Scalar,
};

verus! {

/// The three kinds of column of the arithmetisation.
#[derive(Clone, Copy, Debug, PartialEq, Eq, Structural)]
pub enum ColumnKind {
    /// Prover-supplied witness.
    Advice,
    /// Circuit constant.
    Fixed,
    /// Public input.
    Instance,
}

/// A column, identified by its kind and its index among columns of that kind.
#[derive(Clone, Copy, Debug, PartialEq, Eq, Structural)]
pub struct Column {
    pub kind: ColumnKind,
    pub index: usize,
}

/// A per-row switch that turns a gate on.
#[derive(Clone, Copy, Debug, PartialEq, Eq, Structural)]
pub struct Selector {
    pub index: usize,
}

/// A fixed column that holds the admissible values of a lookup.
#[derive(Clone, Copy, Debug, PartialEq, Eq, Structural)]
pub struct TableColumn {
    pub index: usize,
}

/// A position in the trace.
#[derive(Clone, Copy, Debug, PartialEq, Eq, Structural)]
pub struct Cell {
    pub column: Column,
    pub row: usize,
}

/// Everything the prover and verifier fix for one proof: the value of every
/// cell, the rows on which each selector is on, and the contents of each
/// lookup table.
pub struct Trace {
    pub cell: spec_fn(Column, int) -> nat,
    pub enabled: spec_fn(Selector, int) -> bool,
    pub table: spec_fn(TableColumn, nat) -> bool,
}

impl Trace {
    /// Every cell holds a canonical field element.
    pub open spec fn wf(self) -> bool {
        forall|c: Column, r: int| #[trigger] (self.cell)(c, r) < modulus()
    }

    /// The value at a cell.
    pub open spec fn at(self, c: Cell) -> nat {
        (self.cell)(c.column, c.row as int)
    }
}

/// A polynomial over queried cells, selectors and constants.
#[derive(Debug)]
pub enum Expression {
    Constant(Scalar),
    Selector(Selector),
    /// The cell of a column at a row offset from the current row.
    Query(Column, i32),
    Negated(Box<Expression>),
    Sum(Box<Expression>, Box<Expression>),
    Product(Box<Expression>, Box<Expression>),
}

impl Expression {
    /// The value of the polynomial on one row of a trace.
    pub open spec fn eval(self, t: Trace, row: int) -> int
        decreases self,
    {
        match self {
            Expression::Constant(c) => c.value() as int,
            Expression::Selector(s) => if (t.enabled)(s, row) {
                1
            } else {
                0
            },
            Expression::Query(c, rot) => (t.cell)(c, row + rot) as int,
            Expression::Negated(a) => fneg(a.eval(t, row)),
            Expression::Sum(a, b) => fadd(a.eval(t, row), b.eval(t, row)),
            Expression::Product(a, b) => fmul(a.eval(t, row), b.eval(t, row)),
        }
    }

    /// Every column and selector the polynomial queries has been allocated.
    pub open spec fn declared_in(self, cs: ConstraintSystem) -> bool
        decreases self,
    {
        match self {
            Expression::Constant(_) => true,
            Expression::Selector(s) => s.index < cs.num_selectors,
            Expression::Query(c, _) => cs.has_column(c),
            Expression::Negated(a) => a.declared_in(cs),
            Expression::Sum(a, b) => a.declared_in(cs) && b.declared_in(cs),
            Expression::Product(a, b) => a.declared_in(cs) && b.declared_in(cs),
        }
    }

    /// `a - b`, written as the sum of `a` and the negation of `b`.
    pub open spec fn difference(a: Expression, b: Expression) -> Expression {
        Expression::Sum(Box::new(a), Box::new(Expression::Negated(Box::new(b))))
    }

    /// `a * b`.
    pub open spec fn product(a: Expression, b: Expression) -> Expression {
        Expression::Product(Box::new(a), Box::new(b))
    }

    /// `a + b`.
    pub open spec fn sum(a: Expression, b: Expression) -> Expression {
        Expression::Sum(Box::new(a), Box::new(b))
    }

    /// The cell of `column` on the current row.
    pub open spec fn cur(column: Column) -> Expression {
        Expression::Query(column, 0)
    }

    /// A difference evaluates to the field difference of its two sides.
    pub proof fn lemma_eval_difference(a: Expression, b: Expression, t: Trace, row: int)
        ensures
            Expression::difference(a, b).eval(t, row) == fsub(a.eval(t, row), b.eval(t, row)),
    {
        reveal_with_fuel(Expression::eval, 3);
        lemma_add_negation(a.eval(t, row), b.eval(t, row));
    }

    /// A product evaluates to the field product of its two sides.
    pub proof fn lemma_eval_product(a: Expression, b: Expression, t: Trace, row: int)
        ensures
            Expression::product(a, b).eval(t, row) == fmul(a.eval(t, row), b.eval(t, row)),
    {
        reveal_with_fuel(Expression::eval, 2);
    }

    /// A sum evaluates to the field sum of its two sides.
    pub proof fn lemma_eval_sum(a: Expression, b: Expression, t: Trace, row: int)
        ensures
            Expression::sum(a, b).eval(t, row) == fadd(a.eval(t, row), b.eval(t, row)),
    {
        reveal_with_fuel(Expression::eval, 2);
    }

    /// A column's query on the current row evaluates to the column's cell.
    pub proof fn lemma_eval_cur(c: Column, t: Trace, row: int)
        ensures
            Expression::cur(c).eval(t, row) == (t.cell)(c, row),
    {
        reveal_with_fuel(Expression::eval, 1);
    }

    /// With the selector on, a gated difference vanishes exactly when its two
    /// sides are the same field element; with the selector off it always
    /// vanishes.
    pub proof fn lemma_gated_difference(
        selector: Selector,
        a: Expression,
        b: Expression,
        t: Trace,
        row: int,
    )
        ensures
            (t.enabled)(selector, row) ==> (Expression::product(
                Expression::Selector(selector),
                Expression::difference(a, b),
            ).eval(t, row) == 0 <==> a.eval(t, row) % (modulus() as int) == b.eval(t, row) % (
            modulus() as int)),
            !(t.enabled)(selector, row) ==> Expression::product(
                Expression::Selector(selector),
                Expression::difference(a, b),
            ).eval(t, row) == 0,
    {
        let s = Expression::Selector(selector);
        let d = Expression::difference(a, b);
        Expression::lemma_eval_product(s, d, t, row);
        Expression::lemma_eval_difference(a, b, t, row);
        let x = fsub(a.eval(t, row), b.eval(t, row));
        lemma_mul_unit(x);
        lemma_field_bounds(a.eval(t, row), b.eval(t, row));
        lemma_small_mod(x as nat, modulus());
        lemma_difference_vanishes(a.eval(t, row), b.eval(t, row));
        assert(s.eval(t, row) == (if (t.enabled)(selector, row) {
            1int
        } else {
            0int
        })) by {
            reveal_with_fuel(Expression::eval, 1);
        }
    }

    /// Queries `column` on the current row.
    pub fn query(column: Column) -> (e: Expression)
        ensures
            e == Expression::cur(column),
    {
        Expression::Query(column, 0)
    }

    /// Queries `column` at a row offset.
    pub fn query_at(column: Column, rotation: i32) -> (e: Expression)
        ensures
            e == Expression::Query(column, rotation),
    {
        Expression::Query(column, rotation)
    }

    /// `self + rhs`.
    pub fn plus(self, rhs: Expression) -> (e: Expression)
        ensures
            e == Expression::sum(self, rhs),
    {
        Expression::Sum(Box::new(self), Box::new(rhs))
    }

    /// `self - rhs`.
    pub fn minus(self, rhs: Expression) -> (e: Expression)
        ensures
            e == Expression::difference(self, rhs),
    {
        Expression::Sum(Box::new(self), Box::new(Expression::Negated(Box::new(rhs))))
    }

    /// `self * rhs`.
    pub fn times(self, rhs: Expression) -> (e: Expression)
        ensures
            e == Expression::product(self, rhs),
    {
        Expression::Product(Box::new(self), Box::new(rhs))
    }

    /// A copy of the polynomial.
    pub fn duplicate(&self) -> (e: Expression)
        ensures
            e == *self,
        decreases *self,
    {
        match self {
            Expression::Constant(c) => Expression::Constant(*c),
            Expression::Selector(s) => Expression::Selector(*s),
            Expression::Query(c, rot) => Expression::Query(*c, *rot),
            Expression::Negated(a) => Expression::Negated(Box::new(a.duplicate())),
            Expression::Sum(a, b) => Expression::Sum(
                Box::new(a.duplicate()),
                Box::new(b.duplicate()),
            ),
            Expression::Product(a, b) => Expression::Product(
                Box::new(a.duplicate()),
                Box::new(b.duplicate()),
            ),
        }
    }

    /// Whether every column and selector the polynomial queries has been
    /// allocated in `cs`.
    pub fn is_declared_in(&self, cs: &ConstraintSystem) -> (r: bool)
        ensures
            r == self.declared_in(*cs),
        decreases *self,
    {
        match self {
            Expression::Constant(_) => true,
            Expression::Selector(s) => s.index < cs.num_selectors,
            Expression::Query(c, _) => cs.contains_column(*c),
            Expression::Negated(a) => a.is_declared_in(cs),
            Expression::Sum(a, b) => a.is_declared_in(cs) && b.is_declared_in(cs),
            Expression::Product(a, b) => a.is_declared_in(cs) && b.is_declared_in(cs),
        }
    }
}

impl Clone for Expression {
    fn clone(&self) -> (e: Self)
        ensures
            e == *self,
    {
        self.duplicate()
    }
}

/// A named set of polynomials that must vanish on every row.
#[derive(Clone, Debug)]
pub struct Gate {
    pub name: &'static str,
    pub polys: Vec<Expression>,
}

/// A lookup argument: on every row the input must be one of the table's values.
#[derive(Clone, Debug)]
pub struct Lookup {
    pub input: Expression,
    pub table: TableColumn,
}

/// A descriptor to which nothing has been added yet.
pub open spec fn is_empty_descriptor(cs: ConstraintSystem) -> bool {
    &&& cs.num_advice == 0
    &&& cs.num_fixed == 0
    &&& cs.num_instance == 0
    &&& cs.num_selectors == 0
    &&& cs.num_tables == 0
    &&& cs.equality@.len() == 0
    &&& cs.constants@.len() == 0
    &&& cs.gates@.len() == 0
    &&& cs.lookups@.len() == 0
}

/// Why a configuration call was refused.
#[derive(Clone, Copy, Debug, PartialEq, Eq, Structural)]
pub enum ConfigError {
    /// A polynomial queries a column or selector that was never allocated.
    UndeclaredColumn,
    /// A gate was registered without any polynomial.
    EmptyGate,
    /// A Merkle path does not have as many siblings and directions as the
    /// tree has levels.
    PathLengthMismatch,
    /// A degree bound for which the backend cannot calculate the parameters
    /// of a circuit: fewer than 32 rows, or more than the machine can count.
    UnsupportedDegree,
}

/// The shape of a circuit: how many columns of each kind it has, which of them
/// take part in equality constraints, and its gates and lookups.
#[derive(Clone, Debug)]
pub struct ConstraintSystem {
    pub num_advice: usize,
    pub num_fixed: usize,
    pub num_instance: usize,
    pub num_selectors: usize,
    pub num_tables: usize,
    pub equality: Vec<Column>,
    pub constants: Vec<Column>,
    pub gates: Vec<Gate>,
    pub lookups: Vec<Lookup>,
}

impl ConstraintSystem {
    /// The column has been allocated.
    pub open spec fn has_column(self, c: Column) -> bool {
        match c.kind {
            ColumnKind::Advice => c.index < self.num_advice,
            ColumnKind::Fixed => c.index < self.num_fixed,
            ColumnKind::Instance => c.index < self.num_instance,
        }
    }

    /// Every gate and lookup refers to allocated columns only.
    pub open spec fn wf(self) -> bool {
        &&& forall|g: int, p: int|
            0 <= g < self.gates@.len() && 0 <= p < self.gates@[g].polys@.len()
                ==> (#[trigger] self.gates@[g].polys@[p]).declared_in(self)
        &&& forall|l: int|
            0 <= l < self.lookups@.len() ==> (#[trigger] self.lookups@[l]).input.declared_in(self)
                && self.lookups@[l].table.index < self.num_tables
        &&& forall|i: int| 0 <= i < self.equality@.len() ==> self.has_column(#[trigger] self.equality@[i])
    }

    /// Every polynomial of every gate vanishes on each of the first `rows` rows.
    pub open spec fn gates_hold(self, t: Trace, rows: int) -> bool {
        forall|g: int, p: int, r: int|
            0 <= g < self.gates@.len() && 0 <= p < self.gates@[g].polys@.len() && 0 <= r < rows
                ==> #[trigger] self.gates@[g].polys@[p].eval(t, r) == 0
    }

    /// Every lookup input is in its table on each of the first `rows` rows.
    pub open spec fn lookups_hold(self, t: Trace, rows: int) -> bool {
        forall|l: int, r: int|
            0 <= l < self.lookups@.len() && 0 <= r < rows ==> (t.table)(
                self.lookups@[l].table,
                (#[trigger] self.lookups@[l].input.eval(t, r)) as nat,
            )
    }

    /// The trace meets every gate and every lookup on its first `rows` rows.
    pub open spec fn satisfied_by(self, t: Trace, rows: int) -> bool {
        self.gates_hold(t, rows) && self.lookups_hold(t, rows)
    }

    /// An empty descriptor.
    pub fn new() -> (cs: ConstraintSystem)
        ensures
            cs.num_advice == 0,
            cs.num_fixed == 0,
            cs.num_instance == 0,
            cs.num_selectors == 0,
            cs.num_tables == 0,
            cs.equality@.len() == 0,
            cs.constants@.len() == 0,
            cs.gates@.len() == 0,
            cs.lookups@.len() == 0,
            cs.wf(),
    {
        ConstraintSystem {
            num_advice: 0,
            num_fixed: 0,
            num_instance: 0,
            num_selectors: 0,
            num_tables: 0,
            equality: Vec::new(),
            constants: Vec::new(),
            gates: Vec::new(),
            lookups: Vec::new(),
        }
    }

    /// What an allocation leaves untouched.
    pub open spec fn same_constraints(self, other: ConstraintSystem) -> bool {
        &&& self.equality == other.equality
        &&& self.constants == other.constants
        &&& self.gates == other.gates
        &&& self.lookups == other.lookups
    }

    /// The column counts of two descriptors agree.
    pub open spec fn same_columns(self, other: ConstraintSystem) -> bool {
        &&& self.num_advice == other.num_advice
        &&& self.num_fixed == other.num_fixed
        &&& self.num_instance == other.num_instance
        &&& self.num_selectors == other.num_selectors
        &&& self.num_tables == other.num_tables
    }

    /// Being declared survives growth of the descriptor.
    pub proof fn lemma_declared_monotone(e: Expression, a: ConstraintSystem, b: ConstraintSystem)
        requires
            e.declared_in(a),
            a.num_advice <= b.num_advice,
            a.num_fixed <= b.num_fixed,
            a.num_instance <= b.num_instance,
            a.num_selectors <= b.num_selectors,
        ensures
            e.declared_in(b),
        decreases e,
    {
        match e {
            Expression::Negated(x) => {
                Self::lemma_declared_monotone(*x, a, b);
            },
            Expression::Sum(x, y) => {
                Self::lemma_declared_monotone(*x, a, b);
                Self::lemma_declared_monotone(*y, a, b);
            },
            Expression::Product(x, y) => {
                Self::lemma_declared_monotone(*x, a, b);
                Self::lemma_declared_monotone(*y, a, b);
            },
            _ => {},
        }
    }

    /// Well-formedness survives growth: a descriptor that keeps the
    /// equalities, gates and lookups of a well-formed one, has no fewer
    /// columns, and adds only items that refer to columns of the old one, is
    /// well formed.
    proof fn lemma_wf_grows(a: ConstraintSystem, b: ConstraintSystem)
        requires
            a.wf(),
            a.num_advice <= b.num_advice,
            a.num_fixed <= b.num_fixed,
            a.num_instance <= b.num_instance,
            a.num_selectors <= b.num_selectors,
            a.num_tables <= b.num_tables,
            a.gates@.is_prefix_of(b.gates@),
            a.lookups@.is_prefix_of(b.lookups@),
            a.equality@.is_prefix_of(b.equality@),
            forall|g: int, p: int|
                a.gates@.len() <= g < b.gates@.len() && 0 <= p < b.gates@[g].polys@.len() ==> (
                #[trigger] b.gates@[g].polys@[p]).declared_in(a),
            forall|l: int|
                a.lookups@.len() <= l < b.lookups@.len() ==> (
                #[trigger] b.lookups@[l]).input.declared_in(a) && b.lookups@[l].table.index
                    < a.num_tables,
            forall|i: int|
                a.equality@.len() <= i < b.equality@.len() ==> a.has_column(
                    #[trigger] b.equality@[i],
                ),
        ensures
            b.wf(),
    {
        assert forall|g: int, p: int|
            0 <= g < b.gates@.len() && 0 <= p < b.gates@[g].polys@.len() implies (
        #[trigger] b.gates@[g].polys@[p]).declared_in(b) by {
            if g < a.gates@.len() {
                assert(b.gates@[g] == a.gates@[g]);
            }
            Self::lemma_declared_monotone(b.gates@[g].polys@[p], a, b);
        }
        assert forall|l: int| 0 <= l < b.lookups@.len() implies (#[trigger] b.lookups@[l]).input.declared_in(
            b,
        ) && b.lookups@[l].table.index < b.num_tables by {
            if l < a.lookups@.len() {
                assert(b.lookups@[l] == a.lookups@[l]);
            }
            Self::lemma_declared_monotone(b.lookups@[l].input, a, b);
        }
        assert forall|i: int| 0 <= i < b.equality@.len() implies b.has_column(
            #[trigger] b.equality@[i],
        ) by {
            if i < a.equality@.len() {
                assert(b.equality@[i] == a.equality@[i]);
                assert(a.has_column(a.equality@[i]));
            }
        }
    }

    /// Allocates a fresh advice column.
    pub fn advice_column(&mut self) -> (c: Column)
        requires
            old(self).wf(),
            old(self).num_advice < usize::MAX,
        ensures
            c == (Column { kind: ColumnKind::Advice, index: old(self).num_advice }),
            final(self).num_advice == old(self).num_advice + 1,
            final(self).num_fixed == old(self).num_fixed,
            final(self).num_instance == old(self).num_instance,
            final(self).num_selectors == old(self).num_selectors,
            final(self).num_tables == old(self).num_tables,
            final(self).same_constraints(*old(self)),
            final(self).wf(),
    {
        let c = Column { kind: ColumnKind::Advice, index: self.num_advice };
        self.num_advice = self.num_advice + 1;
        proof {
            Self::lemma_wf_grows(*old(self), *self);
        }
        c
    }

    /// Allocates a fresh fixed column.
    pub fn fixed_column(&mut self) -> (c: Column)
        requires
            old(self).wf(),
            old(self).num_fixed < usize::MAX,
        ensures
            c == (Column { kind: ColumnKind::Fixed, index: old(self).num_fixed }),
            final(self).num_fixed == old(self).num_fixed + 1,
            final(self).num_advice == old(self).num_advice,
            final(self).num_instance == old(self).num_instance,
            final(self).num_selectors == old(self).num_selectors,
            final(self).num_tables == old(self).num_tables,
            final(self).same_constraints(*old(self)),
            final(self).wf(),
    {
        let c = Column { kind: ColumnKind::Fixed, index: self.num_fixed };
        self.num_fixed = self.num_fixed + 1;
        proof {
            Self::lemma_wf_grows(*old(self), *self);
        }
        c
    }

    /// Allocates a fresh instance column.
    pub fn instance_column(&mut self) -> (c: Column)
        requires
            old(self).wf(),
            old(self).num_instance < usize::MAX,
        ensures
            c == (Column { kind: ColumnKind::Instance, index: old(self).num_instance }),
            final(self).num_instance == old(self).num_instance + 1,
            final(self).num_advice == old(self).num_advice,
            final(self).num_fixed == old(self).num_fixed,
            final(self).num_selectors == old(self).num_selectors,
            final(self).num_tables == old(self).num_tables,
            final(self).same_constraints(*old(self)),
            final(self).wf(),
    {
        let c = Column { kind: ColumnKind::Instance, index: self.num_instance };
        self.num_instance = self.num_instance + 1;
        proof {
            Self::lemma_wf_grows(*old(self), *self);
        }
        c
    }

    /// Allocates a fresh selector.
    pub fn selector(&mut self) -> (s: Selector)
        requires
            old(self).wf(),
            old(self).num_selectors < usize::MAX,
        ensures
            s == (Selector { index: old(self).num_selectors }),
            final(self).num_selectors == old(self).num_selectors + 1,
            final(self).num_advice == old(self).num_advice,
            final(self).num_fixed == old(self).num_fixed,
            final(self).num_instance == old(self).num_instance,
            final(self).num_tables == old(self).num_tables,
            final(self).same_constraints(*old(self)),
            final(self).wf(),
    {
        let s = Selector { index: self.num_selectors };
        self.num_selectors = self.num_selectors + 1;
        proof {
            Self::lemma_wf_grows(*old(self), *self);
        }
        s
    }

    /// Allocates a fresh lookup table column.
    pub fn lookup_table_column(&mut self) -> (t: TableColumn)
        requires
            old(self).wf(),
            old(self).num_tables < usize::MAX,
        ensures
            t == (TableColumn { index: old(self).num_tables }),
            final(self).num_tables == old(self).num_tables + 1,
            final(self).num_advice == old(self).num_advice,
            final(self).num_fixed == old(self).num_fixed,
            final(self).num_instance == old(self).num_instance,
            final(self).num_selectors == old(self).num_selectors,
            final(self).same_constraints(*old(self)),
            final(self).wf(),
    {
        let t = TableColumn { index: self.num_tables };
        self.num_tables = self.num_tables + 1;
        proof {
            Self::lemma_wf_grows(*old(self), *self);
        }
        t
    }

    /// Whether the column has been allocated.
    pub fn contains_column(&self, c: Column) -> (r: bool)
        ensures
            r == self.has_column(c),
    {
        match c.kind {
            ColumnKind::Advice => c.index < self.num_advice,
            ColumnKind::Fixed => c.index < self.num_fixed,
            ColumnKind::Instance => c.index < self.num_instance,
        }
    }

    /// Lets cells of `column` take part in equality constraints. Refused when
    /// the column was never allocated.
    pub fn enable_equality(&mut self, column: Column) -> (r: Result<(), ConfigError>)
        requires
            old(self).wf(),
        ensures
            r.is_ok() <==> old(self).has_column(column),
            r.is_err() ==> r == Err::<(), ConfigError>(ConfigError::UndeclaredColumn) && *final(self)
                == *old(self),
            r.is_ok() ==> final(self).equality@ == old(self).equality@.push(column),
            final(self).same_columns(*old(self)),
            final(self).constants == old(self).constants,
            final(self).gates == old(self).gates,
            final(self).lookups == old(self).lookups,
            final(self).wf(),
    {
        if !self.contains_column(column) {
            return Err(ConfigError::UndeclaredColumn);
        }
        self.equality.push(column);
        proof {
            Self::lemma_wf_grows(*old(self), *self);
        }
        Ok(())
    }

    /// Marks a fixed column as the home of circuit constants, and lets it take
    /// part in equality constraints. Refused when the column was never
    /// allocated or is not a fixed column.
    pub fn enable_constant(&mut self, column: Column) -> (r: Result<(), ConfigError>)
        requires
            old(self).wf(),
        ensures
            r.is_ok() <==> old(self).has_column(column) && column.kind == ColumnKind::Fixed,
            r.is_err() ==> r == Err::<(), ConfigError>(ConfigError::UndeclaredColumn) && *final(self)
                == *old(self),
            r.is_ok() ==> final(self).equality@ == old(self).equality@.push(column)
                && final(self).constants@ == old(self).constants@.push(column),
            final(self).same_columns(*old(self)),
            final(self).gates == old(self).gates,
            final(self).lookups == old(self).lookups,
            final(self).wf(),
    {
        let is_fixed = match column.kind {
            ColumnKind::Fixed => true,
            _ => false,
        };
        if !is_fixed || !self.contains_column(column) {
            return Err(ConfigError::UndeclaredColumn);
        }
        self.constants.push(column);
        proof {
            Self::lemma_wf_grows(*old(self), *self);
        }
        self.enable_equality(column)
    }

    /// Whether every polynomial of `polys` queries allocated columns only.
    pub fn all_declared(&self, polys: &Vec<Expression>) -> (r: bool)
        ensures
            r == (forall|p: int| 0 <= p < polys@.len() ==> (#[trigger] polys@[p]).declared_in(*self)),
    {
        let mut i: usize = 0;
        while i < polys.len()
            invariant
                i <= polys@.len(),
                forall|p: int| 0 <= p < i ==> (#[trigger] polys@[p]).declared_in(*self),
            decreases polys@.len() - i,
        {
            if !polys[i].is_declared_in(self) {
                return false;
            }
            i = i + 1;
        }
        true
    }

    /// Registers a gate. Refused, with the descriptor unchanged, when it has
    /// no polynomial or one of them queries a column that was never
    /// allocated.
    pub fn create_gate(&mut self, name: &'static str, polys: Vec<Expression>) -> (r: Result<
        (),
        ConfigError,
    >)
        requires
            old(self).wf(),
        ensures
            r == (if polys@.len() == 0 {
                Err::<(), ConfigError>(ConfigError::EmptyGate)
            } else if !(forall|p: int|
                0 <= p < polys@.len() ==> (#[trigger] polys@[p]).declared_in(*old(self))) {
                Err::<(), ConfigError>(ConfigError::UndeclaredColumn)
            } else {
                Ok::<(), ConfigError>(())
            }),
            r.is_err() ==> *final(self) == *old(self),
            r.is_ok() ==> final(self).gates@.len() == old(self).gates@.len() + 1
                && final(self).gates@.last().name == name && final(self).gates@.last().polys
                == polys && (forall|g: int|
                0 <= g < old(self).gates@.len() ==> final(self).gates@[g] == old(self).gates@[g]),
            final(self).same_columns(*old(self)),
            final(self).equality == old(self).equality,
            final(self).constants == old(self).constants,
            final(self).lookups == old(self).lookups,
            final(self).wf(),
    {
        if polys.len() == 0 {
            return Err(ConfigError::EmptyGate);
        }
        if !self.all_declared(&polys) {
            return Err(ConfigError::UndeclaredColumn);
        }
        self.gates.push(Gate { name, polys });
        proof {
            Self::lemma_wf_grows(*old(self), *self);
        }
        Ok(())
    }

    /// Registers a lookup of `input` in `table`. Refused, with the descriptor
    /// unchanged, when the input queries a column that was never allocated or
    /// the table column was never allocated.
    pub fn lookup(&mut self, input: Expression, table: TableColumn) -> (r: Result<(), ConfigError>)
        requires
            old(self).wf(),
        ensures
            r.is_ok() <==> input.declared_in(*old(self)) && table.index < old(self).num_tables,
            r.is_err() ==> r == Err::<(), ConfigError>(ConfigError::UndeclaredColumn) && *final(self)
                == *old(self),
            r.is_ok() ==> final(self).lookups@.len() == old(self).lookups@.len() + 1
                && final(self).lookups@.last().input == input && final(self).lookups@.last().table
                == table && (forall|l: int|
                0 <= l < old(self).lookups@.len() ==> final(self).lookups@[l] == old(
                    self,
                ).lookups@[l]),
            final(self).same_columns(*old(self)),
            final(self).equality == old(self).equality,
            final(self).constants == old(self).constants,
            final(self).gates == old(self).gates,
            final(self).wf(),
    {
        if !(table.index < self.num_tables) || !input.is_declared_in(self) {
            return Err(ConfigError::UndeclaredColumn);
        }
        self.lookups.push(Lookup { input, table });
        proof {
            Self::lemma_wf_grows(*old(self), *self);
        }
        Ok(())
    }
}

} // verus!
