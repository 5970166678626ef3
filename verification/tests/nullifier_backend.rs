//! Runs the nullifier circuit through the mock prover of the backend and
//! through real keys and proofs.

use bid_circuits::field::Scalar;
use bid_circuits::builder::{hash_pair, CircuitBuilder, CircuitBuilderStage};
use bid_circuits::nullifier_circuit::{build_nullifier_circuit, nullifier_num_instance};
use bid_circuits::plonk::ConfigError;
use halo2_base::gates::circuit::builder::BaseCircuitBuilder;
use halo2_base::gates::GateChip;
use halo2_base::halo2_proofs::dev::MockProver;
use halo2_base::halo2_proofs::halo2curves::bn256::{Bn256, Fr};
use halo2_base::halo2_proofs::plonk::verify_proof;
use halo2_base::halo2_proofs::poly::commitment::ParamsProver;
use halo2_base::halo2_proofs::poly::kzg::commitment::ParamsKZG;
use halo2_base::halo2_proofs::poly::kzg::multiopen::VerifierSHPLONK;
use halo2_base::halo2_proofs::poly::kzg::strategy::AccumulatorStrategy;
use halo2_base::halo2_proofs::poly::VerificationStrategy;
use halo2_base::poseidon::hasher::PoseidonSponge;
use rand::rngs::StdRng;
use rand::SeedableRng;
use snark_verifier_sdk::halo2::{gen_snark_shplonk, PoseidonTranscript, POSEIDON_SPEC};
use snark_verifier_sdk::{gen_pk, CircuitExt, NativeLoader};

fn to_fr(s: &Scalar) -> Fr {
    Fr::from_raw(s.to_limbs())
}

fn from_fr(f: &Fr) -> Scalar {
    Scalar::from_bytes_le(&f.to_bytes()).unwrap()
}

fn accepts(circuit: &CircuitBuilder, k: usize) -> bool {
    let instances = circuit.inner.instances();
    let prover = MockProver::run(k as u32, &circuit.inner, instances).unwrap();
    prover.verify().is_ok()
}

fn flip_bit(s: &Scalar, bit: usize) -> Scalar {
    let mut limbs = s.to_limbs();
    limbs[bit / 64] ^= 1u64 << (bit % 64);
    Scalar::from_limbs(limbs[0], limbs[1], limbs[2], limbs[3]).unwrap()
}

#[test]
fn test_nullifier_circuit() {
    let k = 10;
    let lookup_bits = 9;

    let secret = Fr::from(123);
    let nonce = Fr::from(456);
    let ext_nullifier = Fr::from(789);

    // Use the same circuit logic to compute valid hashes for testing
    // This effectively tests self-consistency

    let mut builder = BaseCircuitBuilder::new(false);
    builder.set_k(k);
    builder.set_lookup_bits(lookup_bits);
    let ctx = builder.main(0);
    let gate = GateChip::default();

    // Compute Check
    let s = ctx.load_witness(secret);
    let n = ctx.load_witness(nonce);
    let e = ctx.load_witness(ext_nullifier);

    let mut sponge1 = PoseidonSponge::<Fr, 3, 2>::new::<8, 57, 0>(ctx);
    sponge1.update(&[s, n]);
    let comm = sponge1.squeeze(ctx, &gate);

    let mut sponge2 = PoseidonSponge::<Fr, 3, 2>::new::<8, 57, 0>(ctx);
    sponge2.update(&[s, e]);
    let null = sponge2.squeeze(ctx, &gate);

    let comm_val = *comm.value();
    let null_val = *null.value();

    // Build actual circuit
    let circuit = build_nullifier_circuit(
        CircuitBuilderStage::Mock,
        from_fr(&comm_val),
        from_fr(&null_val),
        from_fr(&ext_nullifier),
        from_fr(&secret),
        from_fr(&nonce),
        k,
        lookup_bits,
    ).unwrap();

    let instances = circuit.inner.instances();
    let prover = MockProver::run(k as u32, &circuit.inner, instances).unwrap();
    if let Err(errs) = prover.verify() {
        println!("Verification failed with errors: {:?}", errs);
        panic!("Verification failed");
    }
}

#[test]
fn hash_pair_is_the_hash_the_circuit_computes() {
    let secret = Fr::from(123);
    let nonce = Fr::from(456);
    let mut builder = BaseCircuitBuilder::<Fr>::new(false);
    let ctx = builder.main(0);
    let s = ctx.load_witness(secret);
    let n = ctx.load_witness(nonce);
    let mut sponge = PoseidonSponge::<Fr, 3, 2>::new::<8, 57, 0>(ctx);
    sponge.update(&[s, n]);
    let expected = *sponge.squeeze(ctx, &GateChip::default()).value();

    let h = hash_pair(&Scalar::from_u64(123), &Scalar::from_u64(456));
    assert_eq!(to_fr(&h), expected);
    // the hash is neither of its arguments, and depends on their order
    assert_ne!(h, Scalar::from_u64(123));
    assert_ne!(h, Scalar::from_u64(456));
    assert_ne!(h, hash_pair(&Scalar::from_u64(456), &Scalar::from_u64(123)));
    // the same inputs give the same hash
    assert_eq!(h, hash_pair(&Scalar::from_u64(123), &Scalar::from_u64(456)));
}

#[test]
fn hashes_computed_outside_the_circuit_are_accepted() {
    for (secret, nonce, ext) in [(123u64, 456u64, 789u64), (0, 0, 0), (u64::MAX, 1, 2)] {
        let secret = Scalar::from_u64(secret);
        let nonce = Scalar::from_u64(nonce);
        let ext = Scalar::from_u64(ext);
        let commitment = hash_pair(&secret, &nonce);
        let nullifier = hash_pair(&secret, &ext);
        let circuit = build_nullifier_circuit(
            CircuitBuilderStage::Mock,
            commitment,
            nullifier,
            ext,
            secret,
            nonce,
            10,
            9,
        ).unwrap();
        assert!(accepts(&circuit, 10));
    }
}

#[test]
fn public_inputs_are_commitment_nullifier_external_nullifier() {
    let secret = Scalar::from_u64(123);
    let nonce = Scalar::from_u64(456);
    let ext = Scalar::from_u64(789);
    let commitment = hash_pair(&secret, &nonce);
    let nullifier = hash_pair(&secret, &ext);
    let circuit = build_nullifier_circuit(
        CircuitBuilderStage::Mock,
        commitment,
        nullifier,
        ext,
        secret,
        nonce,
        10,
        9,
    ).unwrap();
    assert_eq!(
        circuit.inner.instances(),
        vec![vec![to_fr(&commitment), to_fr(&nullifier), to_fr(&ext)]]
    );
    assert_eq!(circuit.inner.num_instance(), nullifier_num_instance());
    assert_eq!(nullifier_num_instance(), vec![3]);
    assert_eq!(circuit.inner.config_params.k, 10);
    assert_eq!(circuit.inner.config_params.lookup_bits, Some(9));
    assert_eq!(circuit.inner.config_params.num_instance_columns, 1);
    // the column counts were derived from the cells of the circuit:
    // 9023 cells in columns of 2^10 - 20 rows
    assert_eq!(circuit.inner.config_params.num_advice_per_phase, vec![9]);
    assert!(circuit.inner.witness_gen_only() == false);
}

#[test]
fn a_flipped_bit_of_the_commitment_is_rejected() {
    let secret = Scalar::from_u64(123);
    let nonce = Scalar::from_u64(456);
    let ext = Scalar::from_u64(789);
    let commitment = hash_pair(&secret, &nonce);
    let nullifier = hash_pair(&secret, &ext);
    for bit in [0usize, 1, 63, 64, 200] {
        let circuit = build_nullifier_circuit(
            CircuitBuilderStage::Mock,
            flip_bit(&commitment, bit),
            nullifier,
            ext,
            secret,
            nonce,
            10,
            9,
        ).unwrap();
        assert!(!accepts(&circuit, 10));
    }
}

#[test]
fn a_flipped_bit_of_the_nullifier_is_rejected() {
    let secret = Scalar::from_u64(123);
    let nonce = Scalar::from_u64(456);
    let ext = Scalar::from_u64(789);
    let commitment = hash_pair(&secret, &nonce);
    let nullifier = hash_pair(&secret, &ext);
    for bit in [0usize, 7, 128, 250] {
        let circuit = build_nullifier_circuit(
            CircuitBuilderStage::Mock,
            commitment,
            flip_bit(&nullifier, bit),
            ext,
            secret,
            nonce,
            10,
            9,
        ).unwrap();
        assert!(!accepts(&circuit, 10));
    }
}

#[test]
fn commitment_and_nullifier_are_not_interchangeable() {
    let secret = Scalar::from_u64(123);
    let nonce = Scalar::from_u64(456);
    let ext = Scalar::from_u64(789);
    let commitment = hash_pair(&secret, &nonce);
    let nullifier = hash_pair(&secret, &ext);
    let circuit = build_nullifier_circuit(
        CircuitBuilderStage::Mock,
        nullifier,
        commitment,
        ext,
        secret,
        nonce,
        10,
        9,
    ).unwrap();
    assert!(!accepts(&circuit, 10));
}

#[test]
fn another_secret_gives_another_nullifier() {
    let ext = Scalar::from_u64(789);
    let a = hash_pair(&Scalar::from_u64(123), &ext);
    let b = hash_pair(&Scalar::from_u64(124), &ext);
    assert_ne!(a, b);
}

#[test]
fn the_prover_stage_keeps_the_given_degree() {
    let secret = Scalar::from_u64(1);
    let nonce = Scalar::from_u64(2);
    let ext = Scalar::from_u64(3);
    let circuit = build_nullifier_circuit(
        CircuitBuilderStage::Prover,
        hash_pair(&secret, &nonce),
        hash_pair(&secret, &ext),
        ext,
        secret,
        nonce,
        10,
        9,
    ).unwrap();
    assert_eq!(circuit.inner.config_params.k, 10);
    assert_eq!(circuit.inner.instances()[0].len(), 3);
    // no column count was derived
    assert!(circuit.inner.config_params.num_advice_per_phase.is_empty());
}

#[test]
fn nullifier_proof_verifies_against_its_public_inputs() {
    let k = 10;
    let secret = Scalar::from_u64(123);
    let nonce = Scalar::from_u64(456);
    let ext = Scalar::from_u64(789);
    let commitment = hash_pair(&secret, &nonce);
    let nullifier = hash_pair(&secret, &ext);
    let build = |stage| {
        build_nullifier_circuit(stage, commitment, nullifier, ext, secret, nonce, k, 9).unwrap()
    };

    let params = ParamsKZG::<Bn256>::setup(k as u32, StdRng::seed_from_u64(7));
    let pk = gen_pk(&params, &build(CircuitBuilderStage::Keygen).inner, None);
    let circuit = build(CircuitBuilderStage::Mock);
    let instances = circuit.inner.instances();
    let snark = gen_snark_shplonk(&params, &pk, circuit.inner, None::<&str>);

    let verifies = |instances: &[Vec<Fr>]| {
        let instances = instances.iter().map(Vec::as_slice).collect::<Vec<_>>();
        let mut transcript = PoseidonTranscript::<NativeLoader, &[u8]>::from_spec(
            snark.proof(),
            POSEIDON_SPEC.clone(),
        );
        let checked = verify_proof::<_, VerifierSHPLONK<'_, Bn256>, _, _, _>(
            params.verifier_params(),
            pk.get_vk(),
            AccumulatorStrategy::new(params.verifier_params()),
            &[instances.as_slice()],
            &mut transcript,
        );
        match checked {
            Ok(strategy) => {
                VerificationStrategy::<_, VerifierSHPLONK<'_, Bn256>>::finalize(strategy)
            }
            Err(_) => false,
        }
    };
    assert!(verifies(&instances));
    assert!(!verifies(&[vec![
        to_fr(&flip_bit(&commitment, 0)),
        to_fr(&nullifier),
        to_fr(&ext)
    ]]));
    assert!(!verifies(&[vec![
        to_fr(&commitment),
        to_fr(&flip_bit(&nullifier, 0)),
        to_fr(&ext)
    ]]));
    assert!(!verifies(&[vec![to_fr(&nullifier), to_fr(&commitment), to_fr(&ext)]]));
}

#[test]
fn degrees_without_room_for_parameters_are_refused() {
    let secret = Scalar::from_u64(1);
    let nonce = Scalar::from_u64(2);
    let ext = Scalar::from_u64(3);
    let commitment = hash_pair(&secret, &nonce);
    let nullifier = hash_pair(&secret, &ext);
    for stage in [CircuitBuilderStage::Mock, CircuitBuilderStage::Keygen] {
        for k in [0usize, 4, usize::BITS as usize, usize::MAX] {
            let refused =
                build_nullifier_circuit(stage, commitment, nullifier, ext, secret, nonce, k, 3);
            assert_eq!(refused.err(), Some(ConfigError::UnsupportedDegree));
        }
    }
    // the prover takes the parameters of key generation, whatever the degree
    let built = build_nullifier_circuit(
        CircuitBuilderStage::Prover,
        commitment,
        nullifier,
        ext,
        secret,
        nonce,
        4,
        3,
    );
    assert!(built.is_ok());
}

#[test]
fn a_mismatch_of_the_hashes_is_no_error_at_build_time() {
    let built = build_nullifier_circuit(
        CircuitBuilderStage::Mock,
        Scalar::from_u64(1),
        Scalar::from_u64(2),
        Scalar::from_u64(3),
        Scalar::from_u64(4),
        Scalar::from_u64(5),
        10,
        9,
    );
    let circuit = built.unwrap();
    assert_eq!(
        circuit.inner.instances(),
        vec![vec![Fr::from(1), Fr::from(2), Fr::from(3)]]
    );
    assert!(!accepts(&circuit, 10));
}
