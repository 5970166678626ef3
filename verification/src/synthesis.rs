//! The witness synthesizer's record: which cells a circuit assigns, on which
//! rows it turns selectors on, which cells it ties together, and what it puts
//! in lookup tables. The record, together with the public inputs, determines
//! the execution trace that the constraint descriptor is checked against.

use vstd::prelude::*;
use crate::field::{modulus, Scalar};
use crate::plonk::{Cell, Column, ColumnKind, ConstraintSystem, Selector, TableColumn, Trace};

verus! {

/// A cell together with the value assigned to it; `None` stands for a witness
/// that is not known, as during key generation.
#[derive(Clone, Copy, Debug, PartialEq, Eq, Structural)]
pub struct AssignedCell {
    pub cell: Cell,
    pub value: Option<Scalar>,
}

/// A selector turned on at a row.
#[derive(Clone, Copy, Debug, PartialEq, Eq, Structural)]
pub struct EnabledSelector {
    pub selector: Selector,
    pub row: usize,
}

/// Two cells constrained to hold the same value.
#[derive(Clone, Copy, Debug, PartialEq, Eq, Structural)]
pub struct EqualityConstraint {
    pub left: Cell,
    pub right: Cell,
}

/// One entry of a lookup table.
#[derive(Clone, Copy, Debug, PartialEq, Eq, Structural)]
pub struct TableCell {
    pub table: TableColumn,
    pub row: usize,
    pub value: Scalar,
}

/// Why a synthesis step was refused.
#[derive(Clone, Copy, Debug, PartialEq, Eq, Structural)]
pub enum SynthesisError {
    /// An equality constraint names a column that was not enabled for equality.
    ColumnNotInPermutation,
    /// A witness was assigned to a column that is not an advice column, or a
    /// public input was bound to a column that is not an instance column.
    WrongColumnKind,
}

/// The value of a witness, when it is known.
pub open spec fn witness(v: Option<Scalar>) -> Option<nat> {
    match v {
        Some(s) => Some(s.value()),
        None => None,
    }
}

/// The value of a witness; zero when it is unknown.
pub open spec fn witness_or_zero(v: Option<Scalar>) -> nat {
    match v {
        Some(s) => s.value(),
        None => 0,
    }
}

/// The value that a sequence of assignments leaves in a cell: that of the last
/// assignment to it, zero when the witness is unknown or the cell untouched.
pub open spec fn value_of(assigned: Seq<AssignedCell>, c: Column, r: int) -> nat
    decreases assigned.len(),
{
    if assigned.len() == 0 {
        0
    } else {
        let last = assigned.last();
        if last.cell.column == c && last.cell.row as int == r {
            match last.value {
                Some(v) => v.value(),
                None => 0,
            }
        } else {
            value_of(assigned.drop_last(), c, r)
        }
    }
}

/// The public value at a row of an instance column: zero beyond what the
/// verifier supplied.
pub open spec fn instance_value(instances: Seq<Seq<nat>>, index: int, r: int) -> nat {
    if 0 <= index < instances.len() && 0 <= r < instances[index].len() {
        instances[index][r]
    } else {
        0
    }
}

/// Every public value is a canonical field element.
pub open spec fn instances_canonical(instances: Seq<Seq<nat>>) -> bool {
    forall|i: int, r: int|
        0 <= i < instances.len() && 0 <= r < instances[i].len() ==> #[trigger] instances[i][r]
            < modulus()
}

/// An assignment that no later one overwrites decides the value of its cell.
pub proof fn lemma_value_of_at(assigned: Seq<AssignedCell>, i: int)
    requires
        0 <= i < assigned.len(),
        forall|j: int| i < j < assigned.len() ==> (#[trigger] assigned[j]).cell != assigned[i].cell,
    ensures
        value_of(assigned, assigned[i].cell.column, assigned[i].cell.row as int) == (
        match assigned[i].value {
            Some(v) => v.value(),
            None => 0,
        }),
    decreases assigned.len(),
{
    if i < assigned.len() - 1 {
        let rest = assigned.drop_last();
        assert(assigned.last() == assigned[assigned.len() - 1]);
        assert(rest[i] == assigned[i]);
        assert forall|j: int| i < j < rest.len() implies (#[trigger] rest[j]).cell
            != rest[i].cell by {
            assert(rest[j] == assigned[j]);
        }
        lemma_value_of_at(rest, i);
    }
}

/// A cell that no assignment touches holds zero.
pub proof fn lemma_value_of_untouched(assigned: Seq<AssignedCell>, c: Column, r: int)
    requires
        forall|j: int|
            0 <= j < assigned.len() ==> !((#[trigger] assigned[j]).cell.column == c
                && assigned[j].cell.row as int == r),
    ensures
        value_of(assigned, c, r) == 0,
    decreases assigned.len(),
{
    if assigned.len() > 0 {
        let rest = assigned.drop_last();
        assert(assigned.last() == assigned[assigned.len() - 1]);
        assert forall|j: int| 0 <= j < rest.len() implies !((#[trigger] rest[j]).cell.column == c
            && rest[j].cell.row as int == r) by {
            assert(rest[j] == assigned[j]);
        }
        lemma_value_of_untouched(rest, c, r);
    }
}

/// The value of a cell never leaves the field.
pub proof fn lemma_value_of_bound(assigned: Seq<AssignedCell>, c: Column, r: int)
    ensures
        value_of(assigned, c, r) < modulus(),
    decreases assigned.len(),
{
    if assigned.len() > 0 {
        let last = assigned.last();
        if last.cell.column == c && last.cell.row as int == r {
            match last.value {
                Some(v) => {
                    v.lemma_value_bound();
                },
                None => {},
            }
        } else {
            lemma_value_of_bound(assigned.drop_last(), c, r);
        }
    }
}

/// What one synthesis pass has laid out.
#[derive(Debug)]
pub struct Layouter {
    /// The columns enabled for equality by the descriptor.
    pub equality: Vec<Column>,
    /// The assignments, in the order they were made.
    pub assigned: Vec<AssignedCell>,
    /// The selectors turned on.
    pub selectors: Vec<EnabledSelector>,
    /// The equality constraints, those that bind public inputs included.
    pub copies: Vec<EqualityConstraint>,
    /// The lookup table entries.
    pub tables: Vec<TableCell>,
}

impl Layouter {
    /// The selector is on at the row.
    pub open spec fn is_enabled(self, s: Selector, r: int) -> bool {
        exists|i: int|
            0 <= i < self.selectors@.len() && (#[trigger] self.selectors@[i]).selector == s
                && self.selectors@[i].row as int == r
    }

    /// The table column holds the value.
    pub open spec fn in_table(self, t: TableColumn, v: nat) -> bool {
        exists|i: int|
            0 <= i < self.tables@.len() && (#[trigger] self.tables@[i]).table == t
                && self.tables@[i].value.value() == v
    }

    /// The execution trace that this record and the public inputs determine.
    pub open spec fn trace(self, instances: Seq<Seq<nat>>) -> Trace {
        Trace {
            cell: |c: Column, r: int|
                if c.kind == ColumnKind::Instance {
                    instance_value(instances, c.index as int, r)
                } else {
                    value_of(self.assigned@, c, r)
                },
            enabled: |s: Selector, r: int| self.is_enabled(s, r),
            table: |t: TableColumn, v: nat| self.in_table(t, v),
        }
    }

    /// Every equality constraint of the record holds in the trace.
    pub open spec fn copies_hold(self, t: Trace) -> bool {
        forall|i: int|
            0 <= i < self.copies@.len() ==> t.at((#[trigger] self.copies@[i]).left) == t.at(
                self.copies@[i].right,
            )
    }

    /// The trace of canonical public inputs is well formed.
    pub proof fn lemma_trace_wf(self, instances: Seq<Seq<nat>>)
        requires
            instances_canonical(instances),
        ensures
            self.trace(instances).wf(),
    {
        let t = self.trace(instances);
        assert forall|c: Column, r: int| #[trigger] (t.cell)(c, r) < modulus() by {
            if c.kind == ColumnKind::Instance {
            } else {
                lemma_value_of_bound(self.assigned@, c, r);
            }
        }
    }

    /// An empty record for a circuit of the given shape.
    pub fn new(cs: &ConstraintSystem) -> (l: Layouter)
        ensures
            l.equality@ == cs.equality@,
            l.assigned@.len() == 0,
            l.selectors@.len() == 0,
            l.copies@.len() == 0,
            l.tables@.len() == 0,
    {
        let mut equality: Vec<Column> = Vec::new();
        let mut i: usize = 0;
        while i < cs.equality.len()
            invariant
                i <= cs.equality@.len(),
                equality@ == cs.equality@.subrange(0, i as int),
            decreases cs.equality@.len() - i,
        {
            equality.push(cs.equality[i]);
            assert(equality@ =~= cs.equality@.subrange(0, i + 1));
            i = i + 1;
        }
        assert(equality@ =~= cs.equality@);
        Layouter {
            equality,
            assigned: Vec::new(),
            selectors: Vec::new(),
            copies: Vec::new(),
            tables: Vec::new(),
        }
    }

    /// Assigns a witness to a cell of an advice column. Refused, with the
    /// record unchanged, when the column is not an advice column.
    pub fn assign_advice(&mut self, column: Column, row: usize, value: Option<Scalar>) -> (r: Result<
        Cell,
        SynthesisError,
    >)
        ensures
            r == (if column.kind == ColumnKind::Advice {
                Ok::<Cell, SynthesisError>(Cell { column, row })
            } else {
                Err::<Cell, SynthesisError>(SynthesisError::WrongColumnKind)
            }),
            r.is_err() ==> *final(self) == *old(self),
            r.is_ok() ==> final(self).assigned@ == old(self).assigned@.push(
                AssignedCell { cell: Cell { column, row }, value },
            ),
            final(self).equality == old(self).equality,
            final(self).selectors == old(self).selectors,
            final(self).copies == old(self).copies,
            final(self).tables == old(self).tables,
    {
        match column.kind {
            ColumnKind::Advice => {},
            _ => {
                return Err(SynthesisError::WrongColumnKind);
            },
        }
        let cell = Cell { column, row };
        self.assigned.push(AssignedCell { cell, value });
        Ok(cell)
    }

    /// Turns a selector on at a row.
    pub fn enable_selector(&mut self, selector: Selector, row: usize)
        ensures
            final(self).selectors@ == old(self).selectors@.push(EnabledSelector { selector, row }),
            final(self).equality == old(self).equality,
            final(self).assigned == old(self).assigned,
            final(self).copies == old(self).copies,
            final(self).tables == old(self).tables,
    {
        self.selectors.push(EnabledSelector { selector, row });
    }

    /// Puts a value in a lookup table.
    pub fn assign_table(&mut self, table: TableColumn, row: usize, value: Scalar)
        ensures
            final(self).tables@ == old(self).tables@.push(TableCell { table, row, value }),
            final(self).equality == old(self).equality,
            final(self).assigned == old(self).assigned,
            final(self).copies == old(self).copies,
            final(self).selectors == old(self).selectors,
    {
        self.tables.push(TableCell { table, row, value });
    }

    /// Whether the column was enabled for equality.
    pub fn in_permutation(&self, column: Column) -> (r: bool)
        ensures
            r == self.equality@.contains(column),
    {
        let mut i: usize = 0;
        while i < self.equality.len()
            invariant
                i <= self.equality@.len(),
                forall|j: int| 0 <= j < i ==> self.equality@[j] != column,
            decreases self.equality@.len() - i,
        {
            if self.equality[i] == column {
                return true;
            }
            i = i + 1;
        }
        false
    }

    /// Constrains two cells to hold the same value. Refused, with the record
    /// unchanged, when either column was not enabled for equality.
    pub fn constrain_equal(&mut self, left: Cell, right: Cell) -> (r: Result<(), SynthesisError>)
        ensures
            r.is_ok() <==> old(self).equality@.contains(left.column) && old(
                self,
            ).equality@.contains(right.column),
            r.is_err() ==> r == Err::<(), SynthesisError>(SynthesisError::ColumnNotInPermutation)
                && *final(self) == *old(self),
            r.is_ok() ==> final(self).copies@ == old(self).copies@.push(
                EqualityConstraint { left, right },
            ),
            final(self).equality == old(self).equality,
            final(self).assigned == old(self).assigned,
            final(self).selectors == old(self).selectors,
            final(self).tables == old(self).tables,
    {
        if !self.in_permutation(left.column) || !self.in_permutation(right.column) {
            return Err(SynthesisError::ColumnNotInPermutation);
        }
        self.copies.push(EqualityConstraint { left, right });
        Ok(())
    }

    /// Binds a cell to a row of an instance column, so that the verifier's
    /// public input at that row must equal the cell. Refused, with the record
    /// unchanged, when `instance` is not an instance column or either column
    /// was not enabled for equality.
    pub fn constrain_instance(&mut self, cell: Cell, instance: Column, row: usize) -> (r: Result<
        (),
        SynthesisError,
    >)
        ensures
            r == (if instance.kind != ColumnKind::Instance {
                Err::<(), SynthesisError>(SynthesisError::WrongColumnKind)
            } else if !(old(self).equality@.contains(cell.column) && old(self).equality@.contains(
                instance,
            )) {
                Err::<(), SynthesisError>(SynthesisError::ColumnNotInPermutation)
            } else {
                Ok::<(), SynthesisError>(())
            }),
            r.is_err() ==> *final(self) == *old(self),
            r.is_ok() ==> final(self).copies@ == old(self).copies@.push(
                EqualityConstraint { left: cell, right: Cell { column: instance, row } },
            ),
            final(self).equality == old(self).equality,
            final(self).assigned == old(self).assigned,
            final(self).selectors == old(self).selectors,
            final(self).tables == old(self).tables,
    {
        match instance.kind {
            ColumnKind::Instance => {},
            _ => {
                return Err(SynthesisError::WrongColumnKind);
            },
        }
        match self.constrain_equal(cell, Cell { column: instance, row }) {
            Ok(_) => Ok(()),
            Err(e) => Err(e),
        }
    }
}

/// A record in which nothing has been laid out yet.
pub open spec fn is_empty_record(l: Layouter) -> bool {
    &&& l.assigned@.len() == 0
    &&& l.selectors@.len() == 0
    &&& l.copies@.len() == 0
    &&& l.tables@.len() == 0
}

} // verus!
