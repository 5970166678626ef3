//! The circuit builder of `halo2_base`, as verified code sees it.
//!
//! The builder is opaque to the verifier. What it holds is named by the
//! specification functions of this module: the values of its cells, its
//! equality constraints, the cells it exposes as public inputs, the cells on
//! which it laid a bit gate, the cells that a sponge run or a selection ties
//! together, and its parameters. Each call into the builder goes through one
//! wrapper whose contract states, over those names, what the call does.

use vstd::prelude::*;
use vstd::arithmetic::div_mod::lemma_small_mod;
use vstd::arithmetic::power2::pow2;
use halo2_base::gates::circuit::builder::BaseCircuitBuilder;
use halo2_base::gates::{GateChip, GateInstructions};
use halo2_base::halo2_proofs::halo2curves::bn256::Fr;
use halo2_base::poseidon::hasher::PoseidonSponge;
use crate::field::{
    bytes_value,
    fadd,
    fmul,
    fsub,
    lemma_add_difference,
    lemma_field_bounds,
    limbs_value,
    modulus,
    Scalar,
};

verus! {

/// What a circuit is being built for.
#[derive(Clone, Copy, Debug, PartialEq, Eq, Structural)]
pub enum CircuitBuilderStage {
    /// Key generation.
    Keygen,
    /// Proving with keys that were generated before.
    Prover,
    /// A run of the mock prover.
    Mock,
}

/// The number of rows that hold no witness, for the blinding factors.
pub const MINIMUM_ROWS: usize = 20;

/// A circuit builder of `halo2_base` over the BN254 scalar field. Verified
/// code sees it through the specification functions of this module only. The
/// field is public because the proving backend takes the builder itself, and
/// no function of this library can hand it out.
#[verifier::external_body]
pub struct CircuitBuilder {
    pub inner: BaseCircuitBuilder<Fr>,
}

/// The values of the cells of the builder's main context, in the order they
/// were assigned, as integers in `[0, modulus())`.
pub uninterp spec fn builder_cells(b: CircuitBuilder) -> Seq<nat>;

/// The equality constraints between cells of the main context, in the order
/// they were recorded, each as the pair of the cells' offsets.
pub uninterp spec fn builder_equalities(b: CircuitBuilder) -> Seq<(nat, nat)>;

/// For each instance column, the offsets of the cells exposed as its public
/// inputs, in row order.
pub uninterp spec fn builder_instances(b: CircuitBuilder) -> Seq<Seq<nat>>;

/// The degree bound the builder was given: the circuit has `2^k` rows.
pub uninterp spec fn builder_k(b: CircuitBuilder) -> nat;

/// The size of the lookup table the builder was given, as a number of bits.
pub uninterp spec fn builder_lookup_bits(b: CircuitBuilder) -> Option<nat>;

/// Whether the builder has derived the number of its advice columns from the
/// cells assigned to it.
pub uninterp spec fn builder_params_calculated(b: CircuitBuilder) -> bool;

/// Whether the builder records constraints, and not witnesses alone.
pub uninterp spec fn builder_records_constraints(b: CircuitBuilder) -> bool;

/// The offsets of the cells of the main context that were handed to the bit
/// assertion: for each of them the builder laid a gate on copies of the cell
/// that holds only of `0` and `1`.
pub uninterp spec fn builder_bits(b: CircuitBuilder) -> Set<nat>;

/// The sponge runs of the main context, each as the offsets of its two input
/// cells and of its digest cell: the gates that the run laid tie the digest
/// to the hash of the two inputs.
pub uninterp spec fn builder_hashes(b: CircuitBuilder) -> Set<(nat, nat, nat)>;

/// The selections of the main context, each as the offsets of its two
/// candidate cells, of its selector cell and of its result cell: the gates
/// that the selection laid tie the result to `(a - b) * sel + b`.
pub uninterp spec fn builder_selections(b: CircuitBuilder) -> Set<(nat, nat, nat, nat)>;

/// The Poseidon hash of two field elements: a sponge of width 3 and rate 2 with
/// 8 full and 57 partial rounds absorbs both and is squeezed once.
pub uninterp spec fn poseidon_hash(a: nat, b: nat) -> nat;

/// What the backend's selection computes: `(a - b) * sel + b` in the field.
pub open spec fn pick(a: nat, b: nat, sel: nat) -> nat {
    fadd(fmul(fsub(a as int, b as int), sel as int), b as int) as nat
}

/// With a bit as the selector, selection returns its first argument when the
/// bit is set and its second when it is not.
pub proof fn lemma_pick_bit(a: nat, b: nat)
    requires
        a < modulus(),
        b < modulus(),
    ensures
        pick(a, b, 1) == a,
        pick(a, b, 0) == b,
{
    let d = fsub(a as int, b as int);
    lemma_field_bounds(a as int, b as int);
    assert(d * 1 == d);
    assert(d * 0 == 0);
    lemma_small_mod(d as nat, modulus());
    lemma_add_difference(b as int, a as int);
    lemma_small_mod(a, modulus());
    lemma_small_mod(b, modulus());
    assert(fadd(d, b as int) == fadd(b as int, d));
}

/// `BaseCircuitBuilder::new(false)`.
///
/// Trusted: the new builder records constraints; it has no cell, no equality
/// constraint, no instance column, no bit gate, no sponge run and no
/// selection; its degree bound and its lookup bits are not set and its
/// parameters are not calculated.
#[verifier::external_body]
pub(crate) fn new_builder() -> (b: CircuitBuilder)
    ensures
        builder_cells(b).len() == 0,
        builder_equalities(b).len() == 0,
        builder_instances(b).len() == 0,
        builder_k(b) == 0,
        builder_lookup_bits(b).is_none(),
        !builder_params_calculated(b),
        builder_records_constraints(b),
        builder_bits(b) == Set::<nat>::empty(),
        builder_hashes(b) == Set::<(nat, nat, nat)>::empty(),
        builder_selections(b) == Set::<(nat, nat, nat, nat)>::empty(),
{
    CircuitBuilder { inner: BaseCircuitBuilder::new(false) }
}

/// `BaseCircuitBuilder::set_k`.
///
/// Trusted: the call stores the degree bound and touches nothing else.
#[verifier::external_body]
pub(crate) fn set_k(b: &mut CircuitBuilder, k: usize)
    ensures
        builder_k(*final(b)) == k,
        builder_cells(*final(b)) == builder_cells(*old(b)),
        builder_equalities(*final(b)) == builder_equalities(*old(b)),
        builder_instances(*final(b)) == builder_instances(*old(b)),
        builder_records_constraints(*final(b)) == builder_records_constraints(*old(b)),
        builder_bits(*final(b)) == builder_bits(*old(b)),
        builder_hashes(*final(b)) == builder_hashes(*old(b)),
        builder_selections(*final(b)) == builder_selections(*old(b)),
        builder_lookup_bits(*final(b)) == builder_lookup_bits(*old(b)),
        builder_params_calculated(*final(b)) == builder_params_calculated(*old(b)),
{
    b.inner.set_k(k);
}

/// `BaseCircuitBuilder::set_lookup_bits`.
///
/// Trusted: the call stores the size of the lookup table and touches nothing
/// else.
#[verifier::external_body]
pub(crate) fn set_lookup_bits(b: &mut CircuitBuilder, lookup_bits: usize)
    ensures
        builder_lookup_bits(*final(b)) == Some(lookup_bits as nat),
        builder_k(*final(b)) == builder_k(*old(b)),
        builder_cells(*final(b)) == builder_cells(*old(b)),
        builder_equalities(*final(b)) == builder_equalities(*old(b)),
        builder_instances(*final(b)) == builder_instances(*old(b)),
        builder_records_constraints(*final(b)) == builder_records_constraints(*old(b)),
        builder_bits(*final(b)) == builder_bits(*old(b)),
        builder_hashes(*final(b)) == builder_hashes(*old(b)),
        builder_selections(*final(b)) == builder_selections(*old(b)),
        builder_params_calculated(*final(b)) == builder_params_calculated(*old(b)),
{
    b.inner.set_lookup_bits(lookup_bits);
}

/// `Context::load_witness` on the main context.
///
/// Trusted: the call appends one cell that holds the field element congruent
/// to the integer the limbs spell, and returns the offset of that cell.
#[verifier::external_body]
pub(crate) fn load_witness(b: &mut CircuitBuilder, limbs: [u64; 4]) -> (offset: usize)
    requires
        builder_records_constraints(*old(b)),
    ensures
        offset == builder_cells(*old(b)).len(),
        builder_cells(*final(b)) == builder_cells(*old(b)).push(
            limbs_value(limbs[0], limbs[1], limbs[2], limbs[3]) % modulus(),
        ),
        builder_k(*final(b)) == builder_k(*old(b)),
        builder_equalities(*final(b)) == builder_equalities(*old(b)),
        builder_instances(*final(b)) == builder_instances(*old(b)),
        builder_records_constraints(*final(b)) == builder_records_constraints(*old(b)),
        builder_bits(*final(b)) == builder_bits(*old(b)),
        builder_hashes(*final(b)) == builder_hashes(*old(b)),
        builder_selections(*final(b)) == builder_selections(*old(b)),
        builder_lookup_bits(*final(b)) == builder_lookup_bits(*old(b)),
        builder_params_calculated(*final(b)) == builder_params_calculated(*old(b)),
{
    b.inner.main(0).load_witness(Fr::from_raw(limbs)).cell.unwrap().offset
}

/// `PoseidonSponge::<_, 3, 2>::new::<8, 57, 0>`, `update` with two cells and
/// `squeeze`, on the main context.
///
/// Trusted: the sponge assigns further cells and records further equality
/// constraints after those that are there, and changes none of them; the cell
/// it returns, given by its offset, holds the hash of the two input cells, and
/// the gates of the run tie it to them.
#[verifier::external_body]
pub(crate) fn poseidon(b: &mut CircuitBuilder, left: usize, right: usize) -> (digest: usize)
    requires
        left < builder_cells(*old(b)).len(),
        right < builder_cells(*old(b)).len(),
        builder_records_constraints(*old(b)),
    ensures
        builder_cells(*old(b)).is_prefix_of(builder_cells(*final(b))),
        builder_equalities(*old(b)).is_prefix_of(builder_equalities(*final(b))),
        builder_cells(*old(b)).len() <= digest < builder_cells(*final(b)).len(),
        builder_cells(*final(b))[digest as int] == poseidon_hash(
            builder_cells(*old(b))[left as int],
            builder_cells(*old(b))[right as int],
        ),
        builder_hashes(*final(b)) == builder_hashes(*old(b)).insert(
            (left as nat, right as nat, digest as nat),
        ),
        builder_bits(*old(b)).subset_of(builder_bits(*final(b))),
        builder_k(*final(b)) == builder_k(*old(b)),
        builder_instances(*final(b)) == builder_instances(*old(b)),
        builder_records_constraints(*final(b)) == builder_records_constraints(*old(b)),
        builder_selections(*final(b)) == builder_selections(*old(b)),
        builder_lookup_bits(*final(b)) == builder_lookup_bits(*old(b)),
        builder_params_calculated(*final(b)) == builder_params_calculated(*old(b)),
{
    let ctx = b.inner.main(0);
    let inputs = [ctx.get(left as isize), ctx.get(right as isize)];
    let mut sponge = PoseidonSponge::<Fr, 3, 2>::new::<8, 57, 0>(ctx);
    sponge.update(&inputs);
    sponge.squeeze(ctx, &GateChip::default()).cell.unwrap().offset
}

/// `GateChip::select` on the main context.
///
/// Trusted: the chip assigns further cells and records further equality
/// constraints after those that are there, and changes none of them; the cell
/// it returns, given by its offset, holds `(a - b) * sel + b` in the field,
/// which is `a` when `sel` is one and `b` when it is zero, and the gates of
/// the selection tie it to the three cells.
#[verifier::external_body]
pub(crate) fn select(b: &mut CircuitBuilder, a: usize, otherwise: usize, sel: usize) -> (out: usize)
    requires
        a < builder_cells(*old(b)).len(),
        otherwise < builder_cells(*old(b)).len(),
        sel < builder_cells(*old(b)).len(),
        builder_records_constraints(*old(b)),
    ensures
        builder_cells(*old(b)).is_prefix_of(builder_cells(*final(b))),
        builder_equalities(*old(b)).is_prefix_of(builder_equalities(*final(b))),
        builder_cells(*old(b)).len() <= out < builder_cells(*final(b)).len(),
        builder_cells(*final(b))[out as int] == pick(
            builder_cells(*old(b))[a as int],
            builder_cells(*old(b))[otherwise as int],
            builder_cells(*old(b))[sel as int],
        ),
        builder_selections(*final(b)) == builder_selections(*old(b)).insert(
            (a as nat, otherwise as nat, sel as nat, out as nat),
        ),
        builder_k(*final(b)) == builder_k(*old(b)),
        builder_instances(*final(b)) == builder_instances(*old(b)),
        builder_records_constraints(*final(b)) == builder_records_constraints(*old(b)),
        builder_bits(*final(b)) == builder_bits(*old(b)),
        builder_hashes(*final(b)) == builder_hashes(*old(b)),
        builder_lookup_bits(*final(b)) == builder_lookup_bits(*old(b)),
        builder_params_calculated(*final(b)) == builder_params_calculated(*old(b)),
{
    let ctx = b.inner.main(0);
    let (x, y, s) = (ctx.get(a as isize), ctx.get(otherwise as isize), ctx.get(sel as isize));
    GateChip::default().select(ctx, x, y, s).cell.unwrap().offset
}

/// `GateChip::assert_bit` on the main context.
///
/// Trusted: the chip lays a gate on copies of the cell that holds only of `0`
/// and `1`; it assigns further cells and records further equality constraints
/// after those that are there, and changes none of them.
#[verifier::external_body]
pub(crate) fn assert_bit(b: &mut CircuitBuilder, cell: usize)
    requires
        cell < builder_cells(*old(b)).len(),
        builder_records_constraints(*old(b)),
    ensures
        builder_bits(*final(b)) == builder_bits(*old(b)).insert(cell as nat),
        builder_cells(*old(b)).is_prefix_of(builder_cells(*final(b))),
        builder_equalities(*old(b)).is_prefix_of(builder_equalities(*final(b))),
        builder_k(*final(b)) == builder_k(*old(b)),
        builder_instances(*final(b)) == builder_instances(*old(b)),
        builder_records_constraints(*final(b)) == builder_records_constraints(*old(b)),
        builder_hashes(*final(b)) == builder_hashes(*old(b)),
        builder_selections(*final(b)) == builder_selections(*old(b)),
        builder_lookup_bits(*final(b)) == builder_lookup_bits(*old(b)),
        builder_params_calculated(*final(b)) == builder_params_calculated(*old(b)),
{
    let ctx = b.inner.main(0);
    let x = ctx.get(cell as isize);
    GateChip::default().assert_bit(ctx, x);
}

/// `Context::constrain_equal` on the main context.
///
/// Trusted: the call records one equality constraint between the two cells
/// and touches nothing else.
#[verifier::external_body]
pub(crate) fn constrain_equal(b: &mut CircuitBuilder, left: usize, right: usize)
    requires
        left < builder_cells(*old(b)).len(),
        right < builder_cells(*old(b)).len(),
        builder_records_constraints(*old(b)),
    ensures
        builder_equalities(*final(b)) == builder_equalities(*old(b)).push(
            (left as nat, right as nat),
        ),
        builder_k(*final(b)) == builder_k(*old(b)),
        builder_cells(*final(b)) == builder_cells(*old(b)),
        builder_instances(*final(b)) == builder_instances(*old(b)),
        builder_records_constraints(*final(b)) == builder_records_constraints(*old(b)),
        builder_bits(*final(b)) == builder_bits(*old(b)),
        builder_hashes(*final(b)) == builder_hashes(*old(b)),
        builder_selections(*final(b)) == builder_selections(*old(b)),
        builder_lookup_bits(*final(b)) == builder_lookup_bits(*old(b)),
        builder_params_calculated(*final(b)) == builder_params_calculated(*old(b)),
{
    let ctx = b.inner.main(0);
    let (x, y) = (ctx.get(left as isize), ctx.get(right as isize));
    ctx.constrain_equal(&x, &y);
}

/// `BaseCircuitBuilder::set_instance_columns`.
///
/// Trusted: the call adds empty instance columns until there are `columns` of
/// them, and touches nothing else.
#[verifier::external_body]
pub(crate) fn set_instance_columns(b: &mut CircuitBuilder, columns: usize)
    requires
        builder_instances(*old(b)).len() <= columns,
    ensures
        builder_instances(*final(b)).len() == columns,
        forall|i: int|
            0 <= i < columns ==> #[trigger] builder_instances(*final(b))[i] == (if i
                < builder_instances(*old(b)).len() {
                builder_instances(*old(b))[i]
            } else {
                Seq::<nat>::empty()
            }),
        builder_k(*final(b)) == builder_k(*old(b)),
        builder_cells(*final(b)) == builder_cells(*old(b)),
        builder_equalities(*final(b)) == builder_equalities(*old(b)),
        builder_records_constraints(*final(b)) == builder_records_constraints(*old(b)),
        builder_bits(*final(b)) == builder_bits(*old(b)),
        builder_hashes(*final(b)) == builder_hashes(*old(b)),
        builder_selections(*final(b)) == builder_selections(*old(b)),
        builder_lookup_bits(*final(b)) == builder_lookup_bits(*old(b)),
        builder_params_calculated(*final(b)) == builder_params_calculated(*old(b)),
{
    b.inner.set_instance_columns(columns);
}

/// `Vec::push` on one of the builder's `assigned_instances`.
///
/// Trusted: the cell becomes the next public input of the column, and nothing
/// else changes.
#[verifier::external_body]
pub(crate) fn expose(b: &mut CircuitBuilder, column: usize, cell: usize)
    requires
        column < builder_instances(*old(b)).len(),
        cell < builder_cells(*old(b)).len(),
        builder_records_constraints(*old(b)),
    ensures
        builder_instances(*final(b)) == builder_instances(*old(b)).update(
            column as int,
            builder_instances(*old(b))[column as int].push(cell as nat),
        ),
        builder_k(*final(b)) == builder_k(*old(b)),
        builder_cells(*final(b)) == builder_cells(*old(b)),
        builder_equalities(*final(b)) == builder_equalities(*old(b)),
        builder_records_constraints(*final(b)) == builder_records_constraints(*old(b)),
        builder_bits(*final(b)) == builder_bits(*old(b)),
        builder_hashes(*final(b)) == builder_hashes(*old(b)),
        builder_selections(*final(b)) == builder_selections(*old(b)),
        builder_lookup_bits(*final(b)) == builder_lookup_bits(*old(b)),
        builder_params_calculated(*final(b)) == builder_params_calculated(*old(b)),
{
    let value = b.inner.main(0).get(cell as isize);
    b.inner.assigned_instances[column].push(value);
}

/// `BaseCircuitBuilder::calculate_params`.
///
/// Trusted: given a degree bound that leaves rows for witnesses, the call
/// derives the number of columns from the cells assigned so far, and touches
/// nothing else that this module names.
#[verifier::external_body]
pub(crate) fn calculate_params(b: &mut CircuitBuilder, minimum_rows: usize)
    requires
        0 < builder_k(*old(b)) < usize::BITS,
        minimum_rows < pow2(builder_k(*old(b))),
    ensures
        builder_params_calculated(*final(b)),
        builder_k(*final(b)) == builder_k(*old(b)),
        builder_cells(*final(b)) == builder_cells(*old(b)),
        builder_equalities(*final(b)) == builder_equalities(*old(b)),
        builder_instances(*final(b)) == builder_instances(*old(b)),
        builder_records_constraints(*final(b)) == builder_records_constraints(*old(b)),
        builder_bits(*final(b)) == builder_bits(*old(b)),
        builder_hashes(*final(b)) == builder_hashes(*old(b)),
        builder_selections(*final(b)) == builder_selections(*old(b)),
        builder_lookup_bits(*final(b)) == builder_lookup_bits(*old(b)),
{
    b.inner.calculate_params(Some(minimum_rows));
}

/// `Assigned::evaluate` and `Fr::to_bytes` on a cell of the main context.
///
/// Trusted: the bytes are the canonical little-endian encoding of the value
/// that the cell holds, and reading it changes nothing that this module names.
#[verifier::external_body]
pub(crate) fn cell_bytes(b: &mut CircuitBuilder, cell: usize) -> (r: [u8; 32])
    requires
        cell < builder_cells(*old(b)).len(),
    ensures
        bytes_value(r@) == builder_cells(*old(b))[cell as int],
        bytes_value(r@) < modulus(),
        builder_k(*final(b)) == builder_k(*old(b)),
        builder_cells(*final(b)) == builder_cells(*old(b)),
        builder_equalities(*final(b)) == builder_equalities(*old(b)),
        builder_instances(*final(b)) == builder_instances(*old(b)),
        builder_records_constraints(*final(b)) == builder_records_constraints(*old(b)),
        builder_bits(*final(b)) == builder_bits(*old(b)),
        builder_hashes(*final(b)) == builder_hashes(*old(b)),
        builder_selections(*final(b)) == builder_selections(*old(b)),
        builder_lookup_bits(*final(b)) == builder_lookup_bits(*old(b)),
        builder_params_calculated(*final(b)) == builder_params_calculated(*old(b)),
{
    b.inner.main(0).advice[cell].evaluate().to_bytes()
}

/// The hash that binds a commitment or a nullifier to its two preimages,
/// computed by the sponge of the circuit in a builder that is not kept.
pub fn hash_pair(a: &Scalar, b: &Scalar) -> (h: Scalar)
    ensures
        h.value() == poseidon_hash(a.value(), b.value()),
{
    proof {
        a.lemma_value_bound();
        b.lemma_value_bound();
        lemma_small_mod(a.value(), modulus());
        lemma_small_mod(b.value(), modulus());
    }
    let mut scratch = new_builder();
    let left = load_witness(&mut scratch, a.to_limbs());
    let right = load_witness(&mut scratch, b.to_limbs());
    let digest = poseidon(&mut scratch, left, right);
    let bytes = cell_bytes(&mut scratch, digest);
    match Scalar::from_bytes_le(&bytes) {
        Some(h) => h,
        None => unreached(),
    }
}

/// The public value at each exposed cell: for each instance column, the values
/// of its public inputs in row order.
pub open spec fn public_values(b: CircuitBuilder) -> Seq<Seq<nat>> {
    Seq::new(
        builder_instances(b).len(),
        |c: int|
            Seq::new(
                builder_instances(b)[c].len(),
                |r: int| builder_cells(b)[builder_instances(b)[c][r] as int],
            ),
    )
}

/// Every equality constraint of the builder relates two cells of equal value.
pub open spec fn equalities_hold(b: CircuitBuilder) -> bool {
    forall|i: int|
        0 <= i < builder_equalities(b).len() ==> builder_cells(b)[(
        #[trigger] builder_equalities(b)[i]).0 as int] == builder_cells(
            b,
        )[builder_equalities(b)[i].1 as int]
}

/// What sponge runs and selections claim of an assignment of values to
/// cells: every run and every selection lies within the cells, the digest
/// cell of every run holds the hash of the run's two input cells, and the
/// result cell of every selection holds the selection of its three cells.
pub open spec fn ties_hold(
    hashes: Set<(nat, nat, nat)>,
    selections: Set<(nat, nat, nat, nat)>,
    w: Seq<nat>,
) -> bool {
    &&& forall|l: nat, r: nat, d: nat| #[trigger]
        hashes.contains((l, r, d)) ==> l < w.len() && r < w.len() && d < w.len() && w[d as int]
            == poseidon_hash(w[l as int], w[r as int])
    &&& forall|a: nat, o: nat, s: nat, out: nat| #[trigger]
        selections.contains((a, o, s, out)) ==> a < w.len() && o < w.len() && s < w.len() && out
            < w.len() && w[out as int] == pick(w[a as int], w[o as int], w[s as int])
}

/// Ties that hold of some cells hold of any longer run of cells that starts
/// with them.
pub proof fn lemma_ties_survive(
    hashes: Set<(nat, nat, nat)>,
    selections: Set<(nat, nat, nat, nat)>,
    w: Seq<nat>,
    longer: Seq<nat>,
)
    requires
        ties_hold(hashes, selections, w),
        w.is_prefix_of(longer),
    ensures
        ties_hold(hashes, selections, longer),
{
    assert forall|l: nat, r: nat, d: nat| #[trigger] hashes.contains((l, r, d)) implies l
        < longer.len() && r < longer.len() && d < longer.len() && longer[d as int]
        == poseidon_hash(longer[l as int], longer[r as int]) by {
        assert(longer[l as int] == w[l as int]);
        assert(longer[r as int] == w[r as int]);
        assert(longer[d as int] == w[d as int]);
    }
    assert forall|a: nat, o: nat, s: nat, out: nat| #[trigger]
        selections.contains((a, o, s, out)) implies a < longer.len() && o < longer.len() && s
        < longer.len() && out < longer.len() && longer[out as int] == pick(
        longer[a as int],
        longer[o as int],
        longer[s as int],
    ) by {
        assert(longer[a as int] == w[a as int]);
        assert(longer[o as int] == w[o as int]);
        assert(longer[s as int] == w[s as int]);
        assert(longer[out as int] == w[out as int]);
    }
}

/// The cells that the builder assigned meet what its sponge runs and its
/// selections claim.
pub open spec fn own_ties_hold(b: CircuitBuilder) -> bool {
    ties_hold(builder_hashes(b), builder_selections(b), builder_cells(b))
}

/// An assignment of values to the builder's cells, whoever chose it, meets
/// the constraints that the builder recorded: what its sponge runs and its
/// selections claim holds, every cell with a bit gate holds `0` or `1`, and
/// every equality constraint relates two cells of equal value.
pub open spec fn witness_satisfies(b: CircuitBuilder, w: Seq<nat>) -> bool {
    &&& w.len() == builder_cells(b).len()
    &&& ties_hold(builder_hashes(b), builder_selections(b), w)
    &&& forall|x: nat| #[trigger] builder_bits(b).contains(x) ==> x < w.len() && w[x as int] < 2
    &&& forall|i: int|
        0 <= i < builder_equalities(b).len() ==> w[(#[trigger] builder_equalities(b)[i]).0 as int]
            == w[builder_equalities(b)[i].1 as int]
}

} // verus!
