//! The nullifier circuit: the prover knows a secret and a nonce such that
//!
//! 1. `commitment = Poseidon(secret, nonce)`
//! 2. `nullifier = Poseidon(secret, external_nullifier)`
//!
//! Public inputs, in order: `[commitment, nullifier, external_nullifier]`.
//!
//! The circuit is assembled in a circuit builder of `halo2_base`, cell by
//! cell: both hashes are computed inside the circuit, by sponge runs on the
//! cells of the secret, the nonce and the external nullifier, and the digest
//! cell of each run is constrained equal to the cell of its claimed public
//! value.

use vstd::prelude::*;
use vstd::arithmetic::power2::{lemma2_to64, lemma_pow2_strictly_increases};
use crate::builder::{
    builder_cells,
    builder_equalities,
    builder_hashes,
    builder_instances,
    builder_k,
    builder_lookup_bits,
    builder_params_calculated,
    builder_records_constraints,
    builder_selections,
    calculate_params,
    constrain_equal,
    equalities_hold,
    expose,
    hash_pair,
    lemma_ties_survive,
    load_witness,
    new_builder,
    own_ties_hold,
    poseidon,
    poseidon_hash,
    public_values,
    set_instance_columns,
    set_k,
    set_lookup_bits,
    witness_satisfies,
    CircuitBuilder,
    CircuitBuilderStage,
    MINIMUM_ROWS,
};
use crate::field::Scalar;
use crate::plonk::ConfigError;

verus! {

/// The number of public inputs of the nullifier circuit.
pub const NULLIFIER_INSTANCES: usize = 3;

/// The smallest degree bound for which parameters can be calculated: the
/// circuit must have more rows than the backend keeps free of witnesses.
pub const MINIMUM_DEGREE: usize = 5;

/// Whether the backend can calculate the parameters of a circuit of `2^k`
/// rows.
pub open spec fn degree_supported(k: usize) -> bool {
    MINIMUM_DEGREE <= k < usize::BITS
}

/// The shape of the nullifier circuit, whatever its witnesses. The first five
/// cells are those of the secret, the nonce, the external nullifier, the
/// claimed commitment and the claimed nullifier. One sponge run hashes the
/// cells of the secret and the nonce, and its digest cell is constrained
/// equal to the cell of the claimed commitment; another hashes the cells of
/// the secret and the external nullifier, and its digest cell is constrained
/// equal to the cell of the claimed nullifier. The one instance column
/// exposes the cells of the commitment, the nullifier and the external
/// nullifier, in that order.
pub open spec fn has_nullifier_shape(b: CircuitBuilder) -> bool {
    let n = builder_cells(b).len();
    &&& n >= 5
    &&& exists|h: nat|
        5 <= h < n && #[trigger] builder_hashes(b).contains((0nat, 1nat, h))
            && builder_equalities(b).contains((h, 3nat))
    &&& exists|h: nat|
        5 <= h < n && #[trigger] builder_hashes(b).contains((0nat, 2nat, h))
            && builder_equalities(b).contains((h, 4nat))
    &&& builder_instances(b) == seq![seq![3nat, 4nat, 2nat]]
}

/// What `build_nullifier_circuit` assembles: a circuit of the nullifier shape
/// whose first five cells hold the secret, the nonce, the external nullifier,
/// the claimed commitment and the claimed nullifier, and whose other cells
/// meet what its sponge runs claim.
pub open spec fn is_nullifier_circuit(
    b: CircuitBuilder,
    commitment: nat,
    nullifier: nat,
    external_nullifier: nat,
    secret: nat,
    nonce: nat,
) -> bool {
    let cells = builder_cells(b);
    &&& has_nullifier_shape(b)
    &&& cells[0] == secret
    &&& cells[1] == nonce
    &&& cells[2] == external_nullifier
    &&& cells[3] == commitment
    &&& cells[4] == nullifier
    &&& own_ties_hold(b)
}

/// Function to build the nullifier circuit.
/// Proves:
/// 1. `commitment = Poseidon(secret, nonce)`
/// 2. `nullifier = Poseidon(secret, external_nullifier)`
///
/// Refused when the circuit is built for key generation or for the mock
/// prover and the backend cannot calculate parameters for the degree bound.
/// A mismatch between a hash and its claimed public value is not an error
/// here: the builder then holds an equality constraint that its cells do not
/// meet, and proving or verification fails.
///
/// The builder carries the degree bound and the lookup bits as given. Its
/// parameters are calculated unless it is built for the prover, who supplies
/// those of key generation.
pub fn build_nullifier_circuit(
    stage: CircuitBuilderStage,
    commitment: Scalar,
    nullifier: Scalar,
    external_nullifier: Scalar,
    secret: Scalar,
    nonce: Scalar,
    k: usize,
    lookup_bits: usize,
) -> (r: Result<CircuitBuilder, ConfigError>)
    ensures
        r.is_ok() <==> stage == CircuitBuilderStage::Prover || degree_supported(k),
        r matches Err(e) ==> e == ConfigError::UnsupportedDegree,
        r matches Ok(builder) ==> {
            &&& is_nullifier_circuit(
                builder,
                commitment.value(),
                nullifier.value(),
                external_nullifier.value(),
                secret.value(),
                nonce.value(),
            )
            &&& public_values(builder) == seq![
                seq![commitment.value(), nullifier.value(), external_nullifier.value()],
            ]
            &&& builder_k(builder) == k
            &&& builder_lookup_bits(builder) == Some(lookup_bits as nat)
            &&& builder_params_calculated(builder) == (stage != CircuitBuilderStage::Prover)
            &&& builder_records_constraints(builder)
        },
{
    if stage != CircuitBuilderStage::Prover && !(MINIMUM_DEGREE <= k && k < usize::BITS as usize) {
        return Err(ConfigError::UnsupportedDegree);
    }
    let mut builder = new_builder();
    set_k(&mut builder, k);
    set_lookup_bits(&mut builder, lookup_bits);
    proof {
        secret.lemma_value_bound();
        nonce.lemma_value_bound();
        external_nullifier.lemma_value_bound();
        commitment.lemma_value_bound();
        nullifier.lemma_value_bound();
    }

    // Inputs (witness)
    let secret_assigned = load_witness(&mut builder, secret.to_limbs());
    let nonce_assigned = load_witness(&mut builder, nonce.to_limbs());
    let ext_nullifier_assigned = load_witness(&mut builder, external_nullifier.to_limbs());

    // Inputs (public): loaded as witnesses first, exposed as public instances below
    let commitment_assigned = load_witness(&mut builder, commitment.to_limbs());
    let nullifier_assigned = load_witness(&mut builder, nullifier.to_limbs());
    let ghost loaded = builder_cells(builder);
    assert(loaded == seq![
        secret.value(),
        nonce.value(),
        external_nullifier.value(),
        commitment.value(),
        nullifier.value(),
    ]);

    // 1. Commitment = Poseidon(secret, nonce)
    assert(own_ties_hold(builder));
    let ghost b0 = builder;
    let computed_commitment = poseidon(&mut builder, secret_assigned, nonce_assigned);
    proof {
        lemma_ties_survive(
            builder_hashes(b0),
            builder_selections(b0),
            builder_cells(b0),
            builder_cells(builder),
        );
        assert(own_ties_hold(builder));
    }
    let ghost h1 = computed_commitment as nat;
    let ghost after_first = builder_cells(builder);
    assert(after_first[0] == loaded[0] && after_first[1] == loaded[1] && after_first[2] == loaded[2]
        && after_first[3] == loaded[3] && after_first[4] == loaded[4]);
    // Constrain commitment
    constrain_equal(&mut builder, computed_commitment, commitment_assigned);
    let ghost first_equalities = builder_equalities(builder);
    assert(first_equalities.last() == (h1, 3nat));

    // 2. Nullifier = Poseidon(secret, external_nullifier)
    let ghost b1 = builder;
    let computed_nullifier = poseidon(&mut builder, secret_assigned, ext_nullifier_assigned);
    proof {
        lemma_ties_survive(
            builder_hashes(b1),
            builder_selections(b1),
            builder_cells(b1),
            builder_cells(builder),
        );
        assert(own_ties_hold(builder));
    }
    let ghost h2 = computed_nullifier as nat;
    let ghost cells = builder_cells(builder);
    assert(cells[0] == after_first[0] && cells[1] == after_first[1] && cells[2] == after_first[2]
        && cells[3] == after_first[3] && cells[4] == after_first[4] && cells[h1 as int]
        == after_first[h1 as int]);
    // Constrain nullifier
    constrain_equal(&mut builder, computed_nullifier, nullifier_assigned);
    assert(builder_equalities(builder).last() == (h2, 4nat));
    assert(builder_equalities(builder)[first_equalities.len() - 1] == first_equalities.last());

    // Expose public instances
    // Order: [commitment, nullifier, external_nullifier]
    set_instance_columns(&mut builder, 1);
    assert(builder_instances(builder)[0] =~= Seq::<nat>::empty());
    expose(&mut builder, 0, commitment_assigned);
    assert(builder_instances(builder)[0] =~= seq![3nat]);
    expose(&mut builder, 0, nullifier_assigned);
    assert(builder_instances(builder)[0] =~= seq![3nat, 4nat]);
    expose(&mut builder, 0, ext_nullifier_assigned);
    assert(builder_instances(builder)[0] =~= seq![3nat, 4nat, 2nat]);
    assert(builder_instances(builder) =~= seq![seq![3nat, 4nat, 2nat]]);

    if stage != CircuitBuilderStage::Prover {
        // Mock or Keygen
        proof {
            lemma2_to64();
            if k > 5 {
                lemma_pow2_strictly_increases(5, k as nat);
            }
        }
        calculate_params(&mut builder, MINIMUM_ROWS);
    }
    proof {
        assert(public_values(builder) =~= seq![
            seq![commitment.value(), nullifier.value(), external_nullifier.value()],
        ]) by {
            assert(public_values(builder)[0] =~= seq![
                commitment.value(),
                nullifier.value(),
                external_nullifier.value(),
            ]);
        }
        assert(builder_hashes(builder).contains((0nat, 1nat, h1)));
        assert(builder_hashes(builder).contains((0nat, 2nat, h2)));
        assert(builder_equalities(builder).contains((h1, 3nat)));
        assert(builder_equalities(builder).contains((h2, 4nat)));
    }
    Ok(builder)
}

/// The number of public inputs in each instance column of the nullifier
/// circuit: one column of three, for the commitment, the nullifier and the
/// external nullifier.
pub fn nullifier_num_instance() -> (r: Vec<usize>)
    ensures
        r@ == seq![NULLIFIER_INSTANCES],
{
    let mut r: Vec<usize> = Vec::new();
    r.push(NULLIFIER_INSTANCES);
    r
}

/// Soundness of the nullifier circuit. Take a circuit of the nullifier shape
/// and any assignment of values to its cells, whoever chose it, that meets the
/// constraints the builder recorded. Then the public commitment is the hash of
/// the cells of the secret and the nonce, and the public nullifier is the hash
/// of the cells of the secret and the external nullifier, which is itself
/// public: no witness lets a commitment or a nullifier pass that differs from
/// its hash, be it in a single bit.
pub proof fn lemma_nullifier_sound(b: CircuitBuilder, w: Seq<nat>)
    requires
        has_nullifier_shape(b),
        witness_satisfies(b, w),
    ensures
        w[3] == poseidon_hash(w[0], w[1]),
        w[4] == poseidon_hash(w[0], w[2]),
{
    let eqs = builder_equalities(b);
    let n = builder_cells(b).len();
    let h1 = choose|h: nat|
        5 <= h < n && #[trigger] builder_hashes(b).contains((0nat, 1nat, h)) && eqs.contains(
            (h, 3nat),
        );
    let i1 = choose|i: int| 0 <= i < eqs.len() && eqs[i] == (h1, 3nat);
    assert(w[eqs[i1].0 as int] == w[eqs[i1].1 as int]);
    let h2 = choose|h: nat|
        5 <= h < n && #[trigger] builder_hashes(b).contains((0nat, 2nat, h)) && eqs.contains(
            (h, 4nat),
        );
    let i2 = choose|i: int| 0 <= i < eqs.len() && eqs[i] == (h2, 4nat);
    assert(w[eqs[i2].0 as int] == w[eqs[i2].1 as int]);
}

/// The constraints that bind the public values to the hashes: every equality
/// constraint between the digest cell of the sponge run on the secret and the
/// nonce and the cell of the claimed commitment, and between the digest cell
/// of the run on the secret and the external nullifier and the cell of the
/// claimed nullifier, relates two cells of equal value.
pub open spec fn bindings_hold(b: CircuitBuilder) -> bool {
    let cells = builder_cells(b);
    forall|i: int|
        0 <= i < builder_equalities(b).len() && (((#[trigger] builder_equalities(b)[i]).1 == 3
            && builder_hashes(b).contains((0nat, 1nat, builder_equalities(b)[i].0))) || (
        builder_equalities(b)[i].1 == 4 && builder_hashes(b).contains(
            (0nat, 2nat, builder_equalities(b)[i].0),
        ))) ==> cells[builder_equalities(b)[i].0 as int] == cells[builder_equalities(b)[i].1 as int]
}

/// The binding constraints of a nullifier circuit hold of the cells that the
/// builder assigned exactly when the commitment and the nullifier fed to it
/// are the hashes computed from the secret:
/// `commitment = Poseidon(secret, nonce)` and
/// `nullifier = Poseidon(secret, external_nullifier)`.
pub proof fn lemma_nullifier_binding(
    b: CircuitBuilder,
    commitment: nat,
    nullifier: nat,
    external_nullifier: nat,
    secret: nat,
    nonce: nat,
)
    requires
        is_nullifier_circuit(b, commitment, nullifier, external_nullifier, secret, nonce),
    ensures
        bindings_hold(b) <==> commitment == poseidon_hash(secret, nonce) && nullifier
            == poseidon_hash(secret, external_nullifier),
{
    let cells = builder_cells(b);
    let eqs = builder_equalities(b);
    let n = cells.len();
    if bindings_hold(b) {
        let h1 = choose|h: nat|
            5 <= h < n && #[trigger] builder_hashes(b).contains((0nat, 1nat, h)) && eqs.contains(
                (h, 3nat),
            );
        let i1 = choose|i: int| 0 <= i < eqs.len() && eqs[i] == (h1, 3nat);
        assert(cells[eqs[i1].0 as int] == cells[eqs[i1].1 as int]);
        let h2 = choose|h: nat|
            5 <= h < n && #[trigger] builder_hashes(b).contains((0nat, 2nat, h)) && eqs.contains(
                (h, 4nat),
            );
        let i2 = choose|i: int| 0 <= i < eqs.len() && eqs[i] == (h2, 4nat);
        assert(cells[eqs[i2].0 as int] == cells[eqs[i2].1 as int]);
    }
}

/// A commitment and a nullifier computed outside the circuit, with the hash
/// of the library, are accepted: fed to the nullifier circuit as its public
/// values, they meet its binding constraints, and the circuit exposes them,
/// with the external nullifier, in the order commitment, nullifier, external
/// nullifier. Any other commitment, or any other nullifier, leaves a binding
/// constraint unmet.
pub proof fn lemma_nullifier_accepts_iff(
    b: CircuitBuilder,
    commitment: Scalar,
    nullifier: Scalar,
    external_nullifier: Scalar,
    secret: Scalar,
    nonce: Scalar,
    honest_commitment: Scalar,
    honest_nullifier: Scalar,
)
    requires
        is_nullifier_circuit(
            b,
            commitment.value(),
            nullifier.value(),
            external_nullifier.value(),
            secret.value(),
            nonce.value(),
        ),
        honest_commitment.value() == poseidon_hash(secret.value(), nonce.value()),
        honest_nullifier.value() == poseidon_hash(secret.value(), external_nullifier.value()),
    ensures
        bindings_hold(b) <==> commitment.value() == honest_commitment.value() && nullifier.value()
            == honest_nullifier.value(),
        public_values(b) == seq![
            seq![commitment.value(), nullifier.value(), external_nullifier.value()],
        ],
{
    lemma_nullifier_binding(
        b,
        commitment.value(),
        nullifier.value(),
        external_nullifier.value(),
        secret.value(),
        nonce.value(),
    );
    assert(public_values(b) =~= seq![
        seq![commitment.value(), nullifier.value(), external_nullifier.value()],
    ]) by {
        assert(public_values(b)[0] =~= seq![
            commitment.value(),
            nullifier.value(),
            external_nullifier.value(),
        ]);
    }
}

} // verus!
