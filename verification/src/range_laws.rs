//! What the range circuit proves: the constraints it registers hold of the
//! witness it synthesizes whenever the bid is inside the range, and no trace
//! at all satisfies them for public inputs outside it.

use vstd::prelude::*;
use vstd::arithmetic::div_mod::lemma_small_mod;
use crate::decompose::{
    lemma_digits_spell_u64,
    lemma_pow4_32,
    lemma_recompose_eval,
    lemma_weighted_sum_bound,
    lemma_weighted_sum_ext,
    limb,
    recompose,
    weighted_sum,
    LIMBS,
};
use crate::field::{fsub, lemma_field_bounds, lemma_small_difference, modulus, Scalar};
use crate::plonk::{is_empty_descriptor, Cell, Column, ConstraintSystem, Expression, Trace};
use crate::range_proof::{
    advice,
    RangeProofCircuit,
    RangeProofConfig,
    RANGE_ADVICE_COLUMNS,
    RANGE_ROWS,
};
use crate::synthesis::{
    is_empty_record,
    lemma_value_of_at,
    lemma_value_of_untouched,
    value_of,
    Layouter,
};

verus! {

/// In a trace that meets the lookups of the range circuit, a difference that
/// equals the recomposition of its limbs is an integer below 2^64.
proof fn lemma_bounded_by_limbs(limbs: Seq<Column>, diff: Column, t: Trace)
    requires
        t.wf(),
        limbs.len() == LIMBS,
        forall|j: int| 0 <= j < LIMBS ==> #[trigger] (t.cell)(limbs[j], 0) < 4,
        Expression::cur(diff).eval(t, 0) % (modulus() as int) == recompose(limbs, LIMBS as nat).eval(
            t,
            0,
        ) % (modulus() as int),
    ensures
        (t.cell)(diff, 0) < 0x1_0000_0000_0000_0000,
{
    let f = |j: int| (t.cell)(limbs[j], 0);
    lemma_recompose_eval(limbs, LIMBS as nat, t, 0);
    lemma_weighted_sum_bound(f, LIMBS as nat);
    lemma_pow4_32();
    let ws = weighted_sum(f, LIMBS as nat);
    lemma_small_mod(ws, modulus());
    Expression::lemma_eval_cur(diff, t, 0);
    assert((t.cell)(diff, 0) < modulus());
    lemma_small_mod((t.cell)(diff, 0), modulus());
}

/// Soundness of the range circuit. Take any well-formed trace, whoever chose
/// its witnesses, that meets every gate and lookup of a descriptor the range
/// circuit was configured on, in which the range selector is on at row 0, the
/// limb table holds nothing but `0..4`, and the bid and the bounds on row 0
/// are bound to the public inputs `[min, max, value]`. Then
/// `min <= value <= max`: for public inputs outside the range no satisfying
/// trace exists.
pub proof fn lemma_range_sound(
    cfg: RangeProofConfig,
    before: ConstraintSystem,
    cs: ConstraintSystem,
    t: Trace,
    rows: int,
    min: u64,
    max: u64,
    value: u64,
)
    requires
        cfg.wf(),
        cfg.configures(before, cs),
        t.wf(),
        rows >= 1,
        cs.satisfied_by(t, rows),
        (t.enabled)(cfg.selector, 0),
        forall|v: nat| #[trigger] (t.table)(cfg.table, v) ==> v < 4,
        (t.cell)(cfg.min_bound, 0) == (t.cell)(cfg.instance, 0),
        (t.cell)(cfg.max_bound, 0) == (t.cell)(cfg.instance, 1),
        (t.cell)(cfg.value, 0) == (t.cell)(cfg.instance, 2),
        (t.cell)(cfg.instance, 0) == min,
        (t.cell)(cfg.instance, 1) == max,
        (t.cell)(cfg.instance, 2) == value,
    ensures
        min <= value <= max,
{
    let g0 = before.gates@.len() as int;
    let l0 = before.lookups@.len() as int;
    let p = modulus() as int;
    let polys = cs.gates@[g0].polys@;
    let s = Expression::Selector(cfg.selector);
    let v = Expression::cur(cfg.value);
    let lo = Expression::cur(cfg.min_bound);
    let hi = Expression::cur(cfg.max_bound);
    let dmin = Expression::cur(cfg.diff_min);
    let dmax = Expression::cur(cfg.diff_max);
    let rmin = recompose(cfg.limbs_min@, LIMBS as nat);
    let rmax = recompose(cfg.limbs_max@, LIMBS as nat);

    // every limb is a table value
    assert forall|j: int| 0 <= j < LIMBS implies #[trigger] (t.cell)(cfg.limbs_min@[j], 0) < 4 by {
        let e = cs.lookups@[l0 + j].input;
        Expression::lemma_eval_cur(cfg.limbs_min@[j], t, 0);
        assert((t.table)(cs.lookups@[l0 + j].table, e.eval(t, 0) as nat));
    }
    assert forall|j: int| 0 <= j < LIMBS implies #[trigger] (t.cell)(cfg.limbs_max@[j], 0) < 4 by {
        let e = cs.lookups@[l0 + LIMBS + j].input;
        Expression::lemma_eval_cur(cfg.limbs_max@[j], t, 0);
        assert((t.table)(cs.lookups@[l0 + LIMBS + j].table, e.eval(t, 0) as nat));
    }

    // the four range polynomials vanish on row 0
    assert(polys[0].eval(t, 0) == 0 && polys[1].eval(t, 0) == 0 && polys[2].eval(t, 0) == 0
        && polys[3].eval(t, 0) == 0) by {
        assert(cs.gates@[g0].polys@[0].eval(t, 0) == 0);
        assert(cs.gates@[g0].polys@[1].eval(t, 0) == 0);
        assert(cs.gates@[g0].polys@[2].eval(t, 0) == 0);
        assert(cs.gates@[g0].polys@[3].eval(t, 0) == 0);
    }
    Expression::lemma_gated_difference(cfg.selector, dmin, Expression::difference(v, lo), t, 0);
    Expression::lemma_gated_difference(cfg.selector, dmax, Expression::difference(hi, v), t, 0);
    Expression::lemma_gated_difference(cfg.selector, dmin, rmin, t, 0);
    Expression::lemma_gated_difference(cfg.selector, dmax, rmax, t, 0);

    // each difference is below 2^64
    lemma_bounded_by_limbs(cfg.limbs_min@, cfg.diff_min, t);
    lemma_bounded_by_limbs(cfg.limbs_max@, cfg.diff_max, t);

    // each difference is what its name says, in the field
    Expression::lemma_eval_difference(v, lo, t, 0);
    Expression::lemma_eval_difference(hi, v, t, 0);
    Expression::lemma_eval_cur(cfg.value, t, 0);
    Expression::lemma_eval_cur(cfg.min_bound, t, 0);
    Expression::lemma_eval_cur(cfg.max_bound, t, 0);
    Expression::lemma_eval_cur(cfg.diff_min, t, 0);
    Expression::lemma_eval_cur(cfg.diff_max, t, 0);
    let a = (t.cell)(cfg.diff_min, 0) as int;
    let b = (t.cell)(cfg.diff_max, 0) as int;
    lemma_small_mod(a as nat, modulus());
    lemma_small_mod(b as nat, modulus());
    lemma_field_bounds(value as int, min as int);
    lemma_field_bounds(max as int, value as int);
    lemma_small_mod(fsub(value as int, min as int) as nat, modulus());
    lemma_small_mod(fsub(max as int, value as int) as nat, modulus());
    lemma_small_difference(value as int, min as int);
    lemma_small_difference(max as int, value as int);
}

/// The witness that synthesis lays out for known inputs, seen through the
/// trace: the value of each advice cell of the circuit on row 0, and zero on
/// every other row of those columns.
proof fn lemma_range_trace_cells(
    circuit: RangeProofCircuit,
    cfg: RangeProofConfig,
    l0: Layouter,
    l: Layouter,
)
    requires
        cfg.wf(),
        is_empty_record(l0),
        circuit.laid_out(cfg, l0, l),
    ensures
        forall|i: int|
            0 <= i < RANGE_ADVICE_COLUMNS ==> #[trigger] value_of(
                l.assigned@,
                advice(cfg.value.index + i),
                0,
            ) == (match circuit.expected_witness(i) {
                Some(x) => x,
                None => 0,
            }),
        forall|i: int, r: int|
            0 <= i < RANGE_ADVICE_COLUMNS && r != 0 ==> #[trigger] value_of(
                l.assigned@,
                advice(cfg.value.index + i),
                r,
            ) == 0,
{
    let a = cfg.value.index as int;
    assert forall|i: int| 0 <= i < RANGE_ADVICE_COLUMNS implies #[trigger] value_of(
        l.assigned@,
        advice(a + i),
        0,
    ) == (match circuit.expected_witness(i) {
        Some(x) => x,
        None => 0,
    }) by {
        assert(l.assigned@[0 + i].cell == (Cell { column: advice(a + i), row: 0 }));
        assert forall|j: int| i < j < l.assigned@.len() implies (#[trigger] l.assigned@[j]).cell
            != l.assigned@[i].cell by {
            assert(l.assigned@[0 + j].cell == (Cell { column: advice(a + j), row: 0 }));
        }
        lemma_value_of_at(l.assigned@, i);
    }
    assert forall|i: int, r: int| 0 <= i < RANGE_ADVICE_COLUMNS && r != 0 implies #[trigger] value_of(
        l.assigned@,
        advice(a + i),
        r,
    ) == 0 by {
        assert forall|j: int| 0 <= j < l.assigned@.len() implies !((
        #[trigger] l.assigned@[j]).cell.column == advice(a + i) && l.assigned@[j].cell.row as int
            == r) by {
            assert(l.assigned@[0 + j].cell == (Cell { column: advice(a + j), row: 0 }));
        }
        lemma_value_of_untouched(l.assigned@, advice(a + i), r);
    }
}

/// Completeness of the range circuit. Configure it on an empty descriptor,
/// synthesize the circuit of `(value, min, max)` on an empty record of that
/// descriptor, and read the record against the circuit's own public inputs.
/// If `min <= value <= max`, the trace meets every gate and every lookup on
/// any number of rows, and every binding of a public input holds.
pub proof fn lemma_range_complete(
    cfg: RangeProofConfig,
    empty: ConstraintSystem,
    cs: ConstraintSystem,
    l0: Layouter,
    l: Layouter,
    rows: int,
    min: u64,
    max: u64,
    value: u64,
)
    requires
        is_empty_descriptor(empty),
        cfg.wf(),
        cfg.configures(empty, cs),
        is_empty_record(l0),
        (RangeProofCircuit {
            bid_value: Some(Scalar::of_u64(value)),
            min_bid: Some(Scalar::of_u64(min)),
            max_bid: Some(Scalar::of_u64(max)),
        }).laid_out(cfg, l0, l),
        min <= value <= max,
    ensures
        ({
            let circuit = RangeProofCircuit {
                bid_value: Some(Scalar::of_u64(value)),
                min_bid: Some(Scalar::of_u64(min)),
                max_bid: Some(Scalar::of_u64(max)),
            };
            let t = l.trace(circuit.public_inputs());
            cs.satisfied_by(t, rows) && l.copies_hold(t) && t.wf()
        }),
{
    let circuit = RangeProofCircuit {
        bid_value: Some(Scalar::of_u64(value)),
        min_bid: Some(Scalar::of_u64(min)),
        max_bid: Some(Scalar::of_u64(max)),
    };
    let pi = circuit.public_inputs();
    let t = l.trace(pi);
    let p = modulus() as int;
    Scalar::lemma_of_u64_value(value);
    Scalar::lemma_of_u64_value(min);
    Scalar::lemma_of_u64_value(max);
    lemma_small_difference(value as int, min as int);
    lemma_small_difference(max as int, value as int);
    lemma_range_trace_cells(circuit, cfg, l0, l);
    let dmin_v = (value - min) as nat;
    let dmax_v = (max - value) as nat;
    assert(dmin_v % 0x1_0000_0000_0000_0000 == dmin_v);
    assert(dmax_v % 0x1_0000_0000_0000_0000 == dmax_v);

    // the cells of the trace on row 0
    assert(value_of(l.assigned@, advice(0int + 0), 0) == value);
    assert(value_of(l.assigned@, advice(0int + 1), 0) == min);
    assert(value_of(l.assigned@, advice(0int + 2), 0) == max);
    assert(value_of(l.assigned@, advice(0int + 3), 0) == dmin_v);
    assert(value_of(l.assigned@, advice(0int + 4), 0) == dmax_v);
    assert((t.cell)(cfg.value, 0) == value);
    assert((t.cell)(cfg.min_bound, 0) == min);
    assert((t.cell)(cfg.max_bound, 0) == max);
    assert((t.cell)(cfg.diff_min, 0) == dmin_v);
    assert((t.cell)(cfg.diff_max, 0) == dmax_v);
    assert forall|j: int| 0 <= j < LIMBS implies #[trigger] (t.cell)(cfg.limbs_min@[j], 0) == limb(
        dmin_v,
        j as nat,
    ) by {
        assert(value_of(l.assigned@, advice(0 + (5 + j)), 0) == limb(dmin_v, j as nat));
    }
    assert forall|j: int| 0 <= j < LIMBS implies #[trigger] (t.cell)(cfg.limbs_max@[j], 0) == limb(
        dmax_v,
        j as nat,
    ) by {
        assert(value_of(l.assigned@, advice(0 + (37 + j)), 0) == limb(dmax_v, j as nat));
    }

    // the selector is on at row 0 and nowhere else
    assert(l.selectors@[0].selector == cfg.selector && l.selectors@[0].row == 0);
    assert((t.enabled)(cfg.selector, 0));
    assert forall|r: int| r != 0 implies !(#[trigger] (t.enabled)(cfg.selector, r)) by {}

    let s = Expression::Selector(cfg.selector);
    let v = Expression::cur(cfg.value);
    let lo = Expression::cur(cfg.min_bound);
    let hi = Expression::cur(cfg.max_bound);
    let dmin = Expression::cur(cfg.diff_min);
    let dmax = Expression::cur(cfg.diff_max);
    let rmin = recompose(cfg.limbs_min@, LIMBS as nat);
    let rmax = recompose(cfg.limbs_max@, LIMBS as nat);

    // the recompositions on row 0
    lemma_recompose_eval(cfg.limbs_min@, LIMBS as nat, t, 0);
    lemma_recompose_eval(cfg.limbs_max@, LIMBS as nat, t, 0);
    lemma_weighted_sum_ext(
        |j: int| (t.cell)(cfg.limbs_min@[j], 0),
        |j: int| limb(dmin_v, j as nat),
        LIMBS as nat,
    );
    lemma_weighted_sum_ext(
        |j: int| (t.cell)(cfg.limbs_max@[j], 0),
        |j: int| limb(dmax_v, j as nat),
        LIMBS as nat,
    );
    lemma_digits_spell_u64((value - min) as u64);
    lemma_digits_spell_u64((max - value) as u64);
    lemma_small_mod(dmin_v, modulus());
    lemma_small_mod(dmax_v, modulus());
    assert(rmin.eval(t, 0) == dmin_v);
    assert(rmax.eval(t, 0) == dmax_v);

    Expression::lemma_eval_cur(cfg.value, t, 0);
    Expression::lemma_eval_cur(cfg.min_bound, t, 0);
    Expression::lemma_eval_cur(cfg.max_bound, t, 0);
    Expression::lemma_eval_cur(cfg.diff_min, t, 0);
    Expression::lemma_eval_cur(cfg.diff_max, t, 0);
    Expression::lemma_eval_difference(v, lo, t, 0);
    Expression::lemma_eval_difference(hi, v, t, 0);

    // gates
    assert forall|g: int, q: int, r: int|
        0 <= g < cs.gates@.len() && 0 <= q < cs.gates@[g].polys@.len() && 0 <= r
            < rows implies #[trigger] cs.gates@[g].polys@[q].eval(t, r) == 0 by {
        assert(g == 0);
        assert(cs.gates@[0].polys@ == cfg.polys());
        Expression::lemma_gated_difference(cfg.selector, dmin, Expression::difference(v, lo), t, r);
        Expression::lemma_gated_difference(cfg.selector, dmax, Expression::difference(hi, v), t, r);
        Expression::lemma_gated_difference(cfg.selector, dmin, rmin, t, r);
        Expression::lemma_gated_difference(cfg.selector, dmax, rmax, t, r);
        if r == 0 {
            lemma_small_mod(dmin_v, modulus());
            lemma_small_mod(dmax_v, modulus());
        }
    }

    // lookups
    assert(l.tables@[0int + 0].value.value() == 0 && l.tables@[0int + 0].table == cfg.table);
    assert(l.tables@[0int + 1].value.value() == 1 && l.tables@[0int + 1].table == cfg.table);
    assert(l.tables@[0int + 2].value.value() == 2 && l.tables@[0int + 2].table == cfg.table);
    assert(l.tables@[0int + 3].value.value() == 3 && l.tables@[0int + 3].table == cfg.table);
    assert forall|x: nat| x < 4 implies #[trigger] l.in_table(cfg.table, x) by {
        assert(l.tables@[0 + x as int].table == cfg.table);
    }
    assert forall|k: int, r: int| 0 <= k < cs.lookups@.len() && 0 <= r < rows implies (t.table)(
        cs.lookups@[k].table,
        (#[trigger] cs.lookups@[k].input.eval(t, r)) as nat,
    ) by {
        if k < LIMBS {
            assert(cs.lookups@[0 + k].input == Expression::cur(cfg.limbs_min@[k]));
            Expression::lemma_eval_cur(cfg.limbs_min@[k], t, r);
            assert(cfg.limbs_min@[k] == advice(0 + (5 + k)));
            if r != 0 {
                assert(value_of(l.assigned@, advice(0 + (5 + k)), r) == 0);
            } else {
                assert((t.cell)(cfg.limbs_min@[k], 0) == limb(dmin_v, k as nat));
            }
            assert(l.in_table(cfg.table, cs.lookups@[k].input.eval(t, r) as nat));
        } else {
            let j = k - LIMBS;
            assert(cs.lookups@[0 + LIMBS + j].input == Expression::cur(cfg.limbs_max@[j]));
            Expression::lemma_eval_cur(cfg.limbs_max@[j], t, r);
            assert(cfg.limbs_max@[j] == advice(0 + (37 + j)));
            if r != 0 {
                assert(value_of(l.assigned@, advice(0 + (37 + j)), r) == 0);
            } else {
                assert((t.cell)(cfg.limbs_max@[j], 0) == limb(dmax_v, j as nat));
            }
            assert(l.in_table(cfg.table, cs.lookups@[k].input.eval(t, r) as nat));
        }
    }

    // bindings of the public inputs
    assert(l.copies@.len() == 3);
    assert(pi[0][0] == min && pi[0][1] == max && pi[0][2] == value);
    assert forall|i: int| 0 <= i < l.copies@.len() implies t.at((#[trigger] l.copies@[i]).left)
        == t.at(l.copies@[i].right) by {}

    assert forall|i: int, r: int|
        0 <= i < pi.len() && 0 <= r < pi[i].len() implies #[trigger] pi[i][r] < modulus() by {}
    l.lemma_trace_wf(pi);
}

/// The range circuit accepts exactly the bids inside the range. Configure it
/// on an empty descriptor, synthesize the circuit of `(value, min, max)` on an
/// empty record of that descriptor, and read the record against the circuit's
/// own public inputs `[min, max, value]`. The trace meets every gate, every
/// lookup and every binding of a public input if and only if
/// `min <= value <= max`.
pub proof fn lemma_range_accepts_iff(
    cfg: RangeProofConfig,
    empty: ConstraintSystem,
    cs: ConstraintSystem,
    l0: Layouter,
    l: Layouter,
    rows: int,
    min: u64,
    max: u64,
    value: u64,
)
    requires
        is_empty_descriptor(empty),
        cfg.wf(),
        cfg.configures(empty, cs),
        is_empty_record(l0),
        (RangeProofCircuit {
            bid_value: Some(Scalar::of_u64(value)),
            min_bid: Some(Scalar::of_u64(min)),
            max_bid: Some(Scalar::of_u64(max)),
        }).laid_out(cfg, l0, l),
        rows >= 1,
    ensures
        ({
            let circuit = RangeProofCircuit {
                bid_value: Some(Scalar::of_u64(value)),
                min_bid: Some(Scalar::of_u64(min)),
                max_bid: Some(Scalar::of_u64(max)),
            };
            let t = l.trace(circuit.public_inputs());
            (cs.satisfied_by(t, rows) && l.copies_hold(t)) <==> min <= value <= max
        }),
{
    let circuit = RangeProofCircuit {
        bid_value: Some(Scalar::of_u64(value)),
        min_bid: Some(Scalar::of_u64(min)),
        max_bid: Some(Scalar::of_u64(max)),
    };
    let pi = circuit.public_inputs();
    let t = l.trace(pi);
    if min <= value <= max {
        lemma_range_complete(cfg, empty, cs, l0, l, rows, min, max, value);
    }
    if cs.satisfied_by(t, rows) && l.copies_hold(t) {
        Scalar::lemma_of_u64_value(value);
        Scalar::lemma_of_u64_value(min);
        Scalar::lemma_of_u64_value(max);
        assert(pi[0][0] == min && pi[0][1] == max && pi[0][2] == value);
        assert forall|i: int, r: int|
            0 <= i < pi.len() && 0 <= r < pi[i].len() implies #[trigger] pi[i][r] < modulus() by {}
        l.lemma_trace_wf(pi);
        // the selector is on at row 0
        assert(l.selectors@[0].selector == cfg.selector && l.selectors@[0].row == 0);
        assert((t.enabled)(cfg.selector, 0));
        // the table holds the four limbs and nothing else
        assert forall|v: nat| #[trigger] (t.table)(cfg.table, v) implies v < 4 by {
            let i = choose|i: int|
                0 <= i < l.tables@.len() && (#[trigger] l.tables@[i]).table == cfg.table
                    && l.tables@[i].value.value() == v;
            assert(l.tables@[0 + i].value.value() == i);
        }
        // the bindings of the public inputs
        assert(t.at(l.copies@[0].left) == t.at(l.copies@[0].right));
        assert(t.at(l.copies@[1].left) == t.at(l.copies@[1].right));
        assert(t.at(l.copies@[2].left) == t.at(l.copies@[2].right));
        lemma_range_sound(cfg, empty, cs, t, rows, min, max, value);
    }
}

/// The shape of the range circuit is a function of the descriptor it is
/// configured on: two configurations of the same descriptor allocate the same
/// columns and register the same polynomials and lookups, so the same shape
/// goes into every key generation.
pub proof fn lemma_range_shape_determined(
    first: RangeProofConfig,
    second: RangeProofConfig,
    before: ConstraintSystem,
    cs1: ConstraintSystem,
    cs2: ConstraintSystem,
)
    requires
        first.wf(),
        second.wf(),
        first.configures(before, cs1),
        second.configures(before, cs2),
    ensures
        first.value == second.value,
        first.min_bound == second.min_bound,
        first.max_bound == second.max_bound,
        first.diff_min == second.diff_min,
        first.diff_max == second.diff_max,
        first.instance == second.instance,
        first.selector == second.selector,
        first.constant == second.constant,
        first.table == second.table,
        first.limbs_min@ == second.limbs_min@,
        first.limbs_max@ == second.limbs_max@,
        first.polys() == second.polys(),
        cs1.same_columns(cs2),
        cs1.equality@ == cs2.equality@,
        cs1.constants@ == cs2.constants@,
        cs1.gates@.len() == cs2.gates@.len(),
        cs1.gates@.last().polys@ == cs2.gates@.last().polys@,
        cs1.lookups@.len() == cs2.lookups@.len(),
        forall|l: int|
            0 <= l < cs1.lookups@.len() ==> (#[trigger] cs1.lookups@[l]).input
                == cs2.lookups@[l].input && cs1.lookups@[l].table == cs2.lookups@[l].table,
{
    assert(first.limbs_min@ =~= second.limbs_min@);
    assert(first.limbs_max@ =~= second.limbs_max@);
    let l0 = before.lookups@.len() as int;
    assert forall|l: int| 0 <= l < cs1.lookups@.len() implies (#[trigger] cs1.lookups@[l]).input
        == cs2.lookups@[l].input && cs1.lookups@[l].table == cs2.lookups@[l].table by {
        if l < l0 {
            assert(cs1.lookups@[l] == before.lookups@[l]);
            assert(cs2.lookups@[l] == before.lookups@[l]);
        } else if l < l0 + LIMBS {
            assert(cs1.lookups@[l0 + (l - l0)].table == first.table);
            assert(cs2.lookups@[l0 + (l - l0)].table == second.table);
        } else {
            assert(cs1.lookups@[l0 + LIMBS + (l - l0 - LIMBS)].table == first.table);
            assert(cs2.lookups@[l0 + LIMBS + (l - l0 - LIMBS)].table == second.table);
        }
    }
}

/// The range circuit fits in `RANGE_ROWS` rows: synthesis on an empty record
/// assigns no witness, turns no selector on and fills no table entry beyond
/// them.
pub proof fn lemma_range_rows(circuit: RangeProofCircuit, cfg: RangeProofConfig, l0: Layouter, l: Layouter)
    requires
        is_empty_record(l0),
        circuit.laid_out(cfg, l0, l),
    ensures
        forall|i: int| 0 <= i < l.assigned@.len() ==> (#[trigger] l.assigned@[i]).cell.row < RANGE_ROWS,
        forall|i: int| 0 <= i < l.selectors@.len() ==> (#[trigger] l.selectors@[i]).row < RANGE_ROWS,
        forall|i: int| 0 <= i < l.tables@.len() ==> (#[trigger] l.tables@[i]).row < RANGE_ROWS,
{
    assert forall|i: int| 0 <= i < l.assigned@.len() implies (#[trigger] l.assigned@[i]).cell.row
        < RANGE_ROWS by {
        assert(l.assigned@[0 + i].cell.row == 0);
    }
    assert forall|i: int| 0 <= i < l.tables@.len() implies (#[trigger] l.tables@[i]).row
        < RANGE_ROWS by {
        assert(l.tables@[0 + i].row == i);
    }
}

} // verus!
