//! Runs the Merkle circuit, whose node hash is the backend's sponge, through
//! the mock prover and through real keys and proofs.

use bid_circuits::builder::{hash_pair, CircuitBuilder, CircuitBuilderStage};
use bid_circuits::field::Scalar;
use bid_circuits::merkle_circuit::{MerkleCircuit, MerkleConfig};
use bid_circuits::plonk::ConfigError;
use halo2_base::halo2_proofs::dev::MockProver;
use halo2_base::halo2_proofs::halo2curves::bn256::{Bn256, Fr};
use halo2_base::halo2_proofs::plonk::verify_proof;
use halo2_base::halo2_proofs::poly::commitment::ParamsProver;
use halo2_base::halo2_proofs::poly::kzg::commitment::ParamsKZG;
use halo2_base::halo2_proofs::poly::kzg::multiopen::VerifierSHPLONK;
use halo2_base::halo2_proofs::poly::kzg::strategy::AccumulatorStrategy;
use halo2_base::halo2_proofs::poly::VerificationStrategy;
use rand::rngs::StdRng;
use rand::SeedableRng;
use snark_verifier_sdk::halo2::{gen_snark_shplonk, PoseidonTranscript, POSEIDON_SPEC};
use snark_verifier_sdk::{gen_pk, CircuitExt, NativeLoader};

const K: usize = 11;
const LOOKUP_BITS: usize = 10;

fn to_fr(s: &Scalar) -> Fr {
    Fr::from_raw(s.to_limbs())
}

fn path(directions: Vec<bool>) -> MerkleCircuit {
    MerkleCircuit::build(
        Scalar::from_u64(7),
        vec![Scalar::from_u64(11), Scalar::from_u64(13), Scalar::from_u64(17)],
        directions,
        3,
    )
    .unwrap()
}

fn sample_path() -> MerkleCircuit {
    path(vec![false, true, false])
}

fn config() -> MerkleConfig {
    MerkleConfig::configure(3, K, LOOKUP_BITS).unwrap()
}

fn lay_out(circuit: &MerkleCircuit, root: Scalar) -> CircuitBuilder {
    circuit.synthesize(config(), CircuitBuilderStage::Mock, Some(root)).unwrap()
}

fn accepts(circuit: &CircuitBuilder) -> bool {
    let instances = circuit.inner.instances();
    let prover = MockProver::run(K as u32, &circuit.inner, instances).unwrap();
    prover.verify().is_ok()
}

#[test]
fn root_is_the_hash_of_each_level_in_the_order_of_its_direction() {
    let root = sample_path().root().unwrap();
    let level1 = hash_pair(&Scalar::from_u64(7), &Scalar::from_u64(11));
    let level2 = hash_pair(&Scalar::from_u64(13), &level1);
    let level3 = hash_pair(&level2, &Scalar::from_u64(17));
    assert_eq!(root, level3);
    assert_eq!(sample_path().instances(), vec![vec![root]]);
    assert_eq!(sample_path().num_instance(), vec![1]);
    let leaf_alone = MerkleCircuit::build(Scalar::from_u64(7), vec![], vec![], 0).unwrap();
    assert_eq!(leaf_alone.root(), Some(Scalar::from_u64(7)));
}

#[test]
fn flipping_a_direction_changes_the_root() {
    let root = sample_path().root().unwrap();
    for level in 0..3 {
        let mut directions = vec![false, true, false];
        directions[level] = !directions[level];
        assert_ne!(path(directions).root().unwrap(), root);
    }
}

#[test]
fn path_is_accepted_against_its_root() {
    let root = sample_path().root().unwrap();
    let circuit = lay_out(&sample_path(), root);
    assert_eq!(circuit.inner.instances(), vec![vec![to_fr(&root)]]);
    assert_eq!(circuit.inner.num_instance(), sample_path().num_instance());
    assert_eq!(circuit.inner.config_params.k, K);
    assert_eq!(circuit.inner.config_params.lookup_bits, Some(LOOKUP_BITS));
    assert!(!circuit.inner.config_params.num_advice_per_phase.is_empty());
    assert!(accepts(&circuit));
}

#[test]
fn path_is_rejected_against_another_root() {
    let root = sample_path().root().unwrap();
    assert!(!accepts(&lay_out(&sample_path(), root.sub(&Scalar::one()))));
    assert!(!accepts(&lay_out(&sample_path(), Scalar::zero())));
    assert!(!accepts(&lay_out(&sample_path(), Scalar::from_u64(7))));
}

#[test]
fn path_with_a_flipped_direction_is_rejected_against_the_old_root() {
    let root = sample_path().root().unwrap();
    for level in 0..3 {
        let mut directions = vec![false, true, false];
        directions[level] = !directions[level];
        let flipped = path(directions);
        assert!(!accepts(&lay_out(&flipped, root)));
        // against its own root the flipped path is accepted
        assert!(accepts(&lay_out(&flipped, flipped.root().unwrap())));
    }
}

#[test]
fn direction_that_is_not_a_bit_is_rejected() {
    let root = sample_path().root().unwrap();
    let mut circuit = sample_path();
    circuit.path_indices[1] = Some(Scalar::from_u64(2));
    assert_eq!(circuit.root(), None);
    assert_eq!(circuit.instances(), vec![vec![Scalar::zero()]]);
    assert!(!accepts(&lay_out(&circuit, root)));
    assert!(!accepts(&lay_out(&circuit, Scalar::zero())));
}

#[test]
fn leaf_that_is_not_in_the_tree_is_rejected() {
    let root = sample_path().root().unwrap();
    let mut forged = sample_path();
    forged.leaf = Some(Scalar::from_u64(8));
    assert!(!accepts(&lay_out(&forged, root)));
    let mut forged = sample_path();
    forged.path_elements[2] = Some(Scalar::from_u64(19));
    assert!(!accepts(&lay_out(&forged, root)));
}

#[test]
fn path_of_depth_zero_has_the_leaf_as_root() {
    let circuit = MerkleCircuit::build(Scalar::from_u64(7), vec![], vec![], 0).unwrap();
    let config = MerkleConfig::configure(0, K, LOOKUP_BITS).unwrap();
    let accepted = circuit
        .synthesize(config, CircuitBuilderStage::Mock, Some(Scalar::from_u64(7)))
        .unwrap();
    assert!(accepts(&accepted));
    let rejected = circuit
        .synthesize(config, CircuitBuilderStage::Mock, Some(Scalar::from_u64(8)))
        .unwrap();
    assert!(!accepts(&rejected));
}

#[test]
fn path_of_the_wrong_length_is_a_configuration_error() {
    let short = MerkleCircuit::build(
        Scalar::from_u64(7),
        vec![Scalar::from_u64(11), Scalar::from_u64(13)],
        vec![false, true],
        3,
    );
    assert_eq!(short.err(), Some(ConfigError::PathLengthMismatch));
    let uneven = MerkleCircuit::build(
        Scalar::from_u64(7),
        vec![Scalar::from_u64(11), Scalar::from_u64(13), Scalar::from_u64(17)],
        vec![false, true],
        3,
    );
    assert_eq!(uneven.err(), Some(ConfigError::PathLengthMismatch));

    let root = sample_path().root().unwrap();
    for depth in [0usize, 2, 4] {
        let config = MerkleConfig::configure(depth, K, LOOKUP_BITS).unwrap();
        let refused = sample_path().synthesize(config, CircuitBuilderStage::Mock, Some(root));
        assert_eq!(refused.err(), Some(ConfigError::PathLengthMismatch));
    }
    let mut uneven = sample_path();
    uneven.path_indices.pop();
    assert_eq!(uneven.root(), None);
    assert_eq!(
        uneven.synthesize(config(), CircuitBuilderStage::Mock, Some(root)).err(),
        Some(ConfigError::PathLengthMismatch)
    );
}

#[test]
fn a_degree_without_room_for_parameters_is_refused() {
    let small = MerkleConfig { depth: 3, k: 4, lookup_bits: 3 };
    let root = sample_path().root().unwrap();
    for stage in [CircuitBuilderStage::Mock, CircuitBuilderStage::Keygen] {
        assert_eq!(
            sample_path().synthesize(small, stage, Some(root)).err(),
            Some(ConfigError::UnsupportedDegree)
        );
    }
    assert!(sample_path().synthesize(small, CircuitBuilderStage::Prover, Some(root)).is_ok());
    // the length of the path is looked at first
    let wrong = MerkleConfig { depth: 2, k: 4, lookup_bits: 3 };
    assert_eq!(
        sample_path().synthesize(wrong, CircuitBuilderStage::Mock, Some(root)).err(),
        Some(ConfigError::PathLengthMismatch)
    );
}

#[test]
fn configuration_fixes_the_shape() {
    assert_eq!(
        MerkleConfig::configure(3, 11, 10),
        Ok(MerkleConfig { depth: 3, k: 11, lookup_bits: 10 })
    );
    for k in [0usize, 4, usize::BITS as usize] {
        assert_eq!(MerkleConfig::configure(3, k, 3), Err(ConfigError::UnsupportedDegree));
    }
    assert!(MerkleConfig::configure(3, 5, 4).is_ok());
}

#[test]
fn circuit_without_witnesses_keeps_its_depth() {
    let blank = sample_path().without_witnesses();
    assert!(blank.leaf.is_none());
    assert_eq!(blank.path_elements, vec![None, None, None]);
    assert_eq!(blank.path_indices, vec![None, None, None]);
    assert_eq!(blank.root(), None);
    assert_eq!(blank.instances(), vec![vec![Scalar::zero()]]);
    let empty = MerkleCircuit::default();
    assert!(empty.leaf.is_none() && empty.path_elements.is_empty() && empty.path_indices.is_empty());
    // unknown witnesses are laid out as zero, and the shape is that of the path
    let keygen = blank.synthesize(config(), CircuitBuilderStage::Keygen, None).unwrap();
    assert_eq!(keygen.inner.instances(), vec![vec![Fr::from(0)]]);
    let known = lay_out(&sample_path(), Scalar::zero());
    assert_eq!(
        keygen.inner.statistics().gate.total_advice_per_phase,
        known.inner.statistics().gate.total_advice_per_phase
    );
}

#[test]
fn the_prover_stage_leaves_the_parameters_to_the_caller() {
    let root = sample_path().root().unwrap();
    let circuit = sample_path().synthesize(config(), CircuitBuilderStage::Prover, Some(root)).unwrap();
    assert_eq!(circuit.inner.config_params.k, K);
    assert_eq!(circuit.inner.config_params.lookup_bits, Some(LOOKUP_BITS));
    assert!(circuit.inner.config_params.num_advice_per_phase.is_empty());
}

#[test]
fn membership_proof_verifies_against_the_root_alone() {
    let root = sample_path().root().unwrap();
    let params = ParamsKZG::<Bn256>::setup(K as u32, StdRng::seed_from_u64(7));
    let keygen = sample_path()
        .without_witnesses()
        .synthesize(config(), CircuitBuilderStage::Keygen, None)
        .unwrap();
    let pk = gen_pk(&params, &keygen.inner, None);
    let circuit = lay_out(&sample_path(), root);
    let instances = circuit.inner.instances();
    let snark = gen_snark_shplonk(&params, &pk, circuit.inner, None::<&str>);

    let verifies = |instances: &[Vec<Fr>]| {
        let instances = instances.iter().map(Vec::as_slice).collect::<Vec<_>>();
        let mut transcript = PoseidonTranscript::<NativeLoader, &[u8]>::from_spec(
            snark.proof(),
            POSEIDON_SPEC.clone(),
        );
        let checked = verify_proof::<_, VerifierSHPLONK<'_, Bn256>, _, _, _>(
            params.verifier_params(),
            pk.get_vk(),
            AccumulatorStrategy::new(params.verifier_params()),
            &[instances.as_slice()],
            &mut transcript,
        );
        match checked {
            Ok(strategy) => {
                VerificationStrategy::<_, VerifierSHPLONK<'_, Bn256>>::finalize(strategy)
            }
            Err(_) => false,
        }
    };
    assert!(verifies(&instances));
    assert!(!verifies(&[vec![to_fr(&root.sub(&Scalar::one()))]]));
    let other = path(vec![true, true, false]).root().unwrap();
    assert!(!verifies(&[vec![to_fr(&other)]]));
}
