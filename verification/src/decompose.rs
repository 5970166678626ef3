//! Base-4 decomposition of 64-bit integers: the arithmetic behind the
//! boundedness constraints of the range circuits. A field element that equals
//! a sum of 32 two-bit limbs, each weighted by a power of four, is an integer
//! below 2^64.

use vstd::prelude::*;
use vstd::arithmetic::div_mod::{
    lemma_add_mod_noop,
    lemma_div_denominator,
    lemma_mod_breakdown,
    lemma_small_mod,
};
use vstd::arithmetic::mul::{lemma_mul_inequality, lemma_mul_is_commutative};
use crate::field::{fadd, fmul, modulus, Scalar};
use crate::plonk::{Column, Expression, Trace};

verus! {

/// The number of two-bit limbs of a 64-bit integer.
pub const LIMBS: usize = 32;

/// The number of values a limb can take.
pub const LIMB_RANGE: u64 = 4;

/// `4^n`.
pub open spec fn pow4(n: nat) -> nat
    decreases n,
{
    if n == 0 {
        1
    } else {
        4 * pow4((n - 1) as nat)
    }
}

/// The `j`-th base-4 digit of `d`.
pub open spec fn limb(d: nat, j: nat) -> nat {
    (d / pow4(j)) % 4
}

/// The sum of `f(j) * 4^j` over `j < n`.
pub open spec fn weighted_sum(f: spec_fn(int) -> nat, n: nat) -> nat
    decreases n,
{
    if n == 0 {
        0
    } else {
        weighted_sum(f, (n - 1) as nat) + f(n - 1) * pow4((n - 1) as nat)
    }
}

/// Powers of four are positive.
pub proof fn lemma_pow4_positive(n: nat)
    ensures
        pow4(n) > 0,
    decreases n,
{
    if n > 0 {
        lemma_pow4_positive((n - 1) as nat);
    }
}

/// Powers of four grow with the exponent.
pub proof fn lemma_pow4_monotone(a: nat, b: nat)
    requires
        a <= b,
    ensures
        pow4(a) <= pow4(b),
    decreases b,
{
    if a < b {
        lemma_pow4_monotone(a, (b - 1) as nat);
        lemma_pow4_positive((b - 1) as nat);
    }
}

/// `4^16 = 2^32`.
proof fn lemma_pow4_16()
    ensures
        pow4(16) == 0x1_0000_0000,
{
    reveal_with_fuel(pow4, 17);
}

/// `4^32 = 2^64`.
pub proof fn lemma_pow4_32()
    ensures
        pow4(32) == 0x1_0000_0000_0000_0000,
        pow4(31) == 0x4000_0000_0000_0000,
{
    lemma_pow4_16();
    assert(pow4(31) == 0x8000 * 0x8000 * pow4(16)) by {
        reveal_with_fuel(pow4, 16);
    }
    assert(pow4(32) == 4 * pow4(31));
}

/// A sum of weighted limbs below four is below the next power of four.
pub proof fn lemma_weighted_sum_bound(f: spec_fn(int) -> nat, n: nat)
    requires
        forall|j: int| 0 <= j < n ==> #[trigger] f(j) < 4,
    ensures
        weighted_sum(f, n) < pow4(n),
    decreases n,
{
    if n > 0 {
        let m = (n - 1) as nat;
        lemma_weighted_sum_bound(f, m);
        assert(f(m as int) <= 3);
        lemma_mul_inequality(f(m as int) as int, 3, pow4(m) as int);
    }
}

/// Two digit functions that agree below `n` have the same weighted sum.
pub proof fn lemma_weighted_sum_ext(f: spec_fn(int) -> nat, g: spec_fn(int) -> nat, n: nat)
    requires
        forall|j: int| 0 <= j < n ==> #[trigger] f(j) == g(j),
    ensures
        weighted_sum(f, n) == weighted_sum(g, n),
    decreases n,
{
    if n > 0 {
        lemma_weighted_sum_ext(f, g, (n - 1) as nat);
    }
}

/// The first `n` digits of `d` spell `d` modulo `4^n`.
pub proof fn lemma_digits_spell(d: nat, n: nat)
    ensures
        weighted_sum(|j: int| limb(d, j as nat), n) == d % pow4(n),
    decreases n,
{
    let f = |j: int| limb(d, j as nat);
    if n == 0 {
        assert(d % 1 == 0);
    } else {
        let m = (n - 1) as nat;
        lemma_digits_spell(d, m);
        lemma_pow4_positive(m);
        lemma_mod_breakdown(d as int, pow4(m) as int, 4);
        lemma_mul_is_commutative(pow4(m) as int, 4);
        assert(f(m as int) == (d / pow4(m)) % 4);
        lemma_mul_is_commutative(pow4(m) as int, ((d / pow4(m)) % 4) as int);
    }
}

/// The digits of a 64-bit integer spell that integer.
pub proof fn lemma_digits_spell_u64(d: u64)
    ensures
        weighted_sum(|j: int| limb(d as nat, j as nat), 32) == d,
{
    lemma_digits_spell(d as nat, 32);
    lemma_pow4_32();
    lemma_small_mod(d as nat, pow4(32));
}

/// The 32 base-4 digits of `d`, least significant first.
pub fn decompose(d: u64) -> (limbs: Vec<u64>)
    ensures
        limbs@.len() == LIMBS,
        forall|j: int| 0 <= j < LIMBS ==> #[trigger] limbs@[j] == limb(d as nat, j as nat),
{
    let mut limbs: Vec<u64> = Vec::new();
    let mut rest: u64 = d;
    let mut j: usize = 0;
    assert(pow4(0) == 1 && (d as nat) / 1 == d as nat);
    while j < LIMBS
        invariant
            j <= LIMBS,
            limbs@.len() == j,
            rest == (d as nat) / pow4(j as nat),
            forall|i: int| 0 <= i < j ==> #[trigger] limbs@[i] == limb(d as nat, i as nat),
        decreases LIMBS - j,
    {
        proof {
            lemma_pow4_positive(j as nat);
            lemma_div_denominator(d as int, pow4(j as nat) as int, 4);
            lemma_mul_is_commutative(pow4(j as nat) as int, 4);
        }
        limbs.push(rest % LIMB_RANGE);
        rest = rest / LIMB_RANGE;
        j = j + 1;
    }
    limbs
}

/// The polynomial that recomposes the first `n` of `limbs`: the sum of each
/// limb column, queried on the current row, times its power of four.
pub open spec fn recompose(limbs: Seq<Column>, n: nat) -> Expression
    decreases n,
{
    if n == 0 {
        Expression::Constant(Scalar::of_u64(0))
    } else {
        Expression::sum(
            recompose(limbs, (n - 1) as nat),
            Expression::product(
                Expression::cur(limbs[n - 1]),
                Expression::Constant(Scalar::of_u64(pow4((n - 1) as nat) as u64)),
            ),
        )
    }
}

/// On any row the recomposing polynomial evaluates to the weighted sum of the
/// limb cells, reduced into the field.
pub proof fn lemma_recompose_eval(limbs: Seq<Column>, n: nat, t: Trace, row: int)
    requires
        n <= 32,
        n <= limbs.len(),
    ensures
        recompose(limbs, n).eval(t, row) == (weighted_sum(
            |j: int| (t.cell)(limbs[j], row),
            n,
        ) as int) % (modulus() as int),
    decreases n,
{
    let f = |j: int| (t.cell)(limbs[j], row);
    let p = modulus() as int;
    if n == 0 {
        Scalar::lemma_of_u64_value(0);
        reveal_with_fuel(Expression::eval, 1);
    } else {
        let m = (n - 1) as nat;
        lemma_recompose_eval(limbs, m, t, row);
        lemma_pow4_monotone(m, 31);
        lemma_pow4_32();
        let w = pow4(m) as u64;
        Scalar::lemma_of_u64_value(w);
        let prev = recompose(limbs, m);
        let term = Expression::product(
            Expression::cur(limbs[m as int]),
            Expression::Constant(Scalar::of_u64(w)),
        );
        assert(recompose(limbs, n) == Expression::sum(prev, term));
        assert(term.eval(t, row) == fmul(f(m as int) as int, w as int)) by {
            reveal_with_fuel(Expression::eval, 3);
        }
        assert(recompose(limbs, n).eval(t, row) == fadd(prev.eval(t, row), term.eval(t, row)))
            by {
            reveal_with_fuel(Expression::eval, 2);
        }
        let s = weighted_sum(f, m) as int;
        let x = f(m as int) as int * (w as int);
        lemma_add_mod_noop(s, x, p);
    }
}

/// Builds the polynomial that recomposes the limb columns.
pub fn recompose_expression(limbs: &Vec<Column>) -> (e: Expression)
    requires
        limbs@.len() == LIMBS,
    ensures
        e == recompose(limbs@, LIMBS as nat),
{
    let mut e = Expression::Constant(Scalar::from_u64(0));
    let mut weight: u64 = 1;
    let mut j: usize = 0;
    while j < LIMBS
        invariant
            j <= LIMBS,
            limbs@.len() == LIMBS,
            e == recompose(limbs@, j as nat),
            j < LIMBS ==> weight == pow4(j as nat),
        decreases LIMBS - j,
    {
        let term = Expression::query(limbs[j]).times(Expression::Constant(Scalar::from_u64(weight)));
        e = e.plus(term);
        j = j + 1;
        if j < LIMBS {
            proof {
                lemma_pow4_monotone(j as nat, 31);
                lemma_pow4_32();
            }
            weight = weight * LIMB_RANGE;
        }
    }
    e
}

} // verus!
