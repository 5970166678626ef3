//! The order of the proof pipeline and what a failure at each stage means.
//!
//! The pipeline has five stages: setup of the parameters for a degree bound,
//! key generation for a circuit shape, proving, verification, and export of
//! the on-chain verifier. A proof that was made before enters where proving
//! would. The proving backend does the work of each stage; the state here
//! says which stage may run next and what running it changes.

use vstd::prelude::*;
use vstd::arithmetic::power2::pow2;
use crate::plonk::ConfigError;
use crate::synthesis::SynthesisError;

verus! {

/// The largest degree bound the backend supports: the field has a
/// multiplicative subgroup of order `2^28` and of no higher power of two.
pub const MAX_DEGREE: u32 = 28;

/// How a stage of the pipeline can fail.
#[derive(Clone, Copy, Debug, PartialEq, Eq, Structural)]
pub enum PipelineError {
    /// Bad column or gate wiring, a path of the wrong length, or a stage run
    /// before the stage it depends on. Caught before any proving attempt.
    Configuration,
    /// A witness that is missing, or that does not meet the claim.
    Witness,
    /// A gate that the mock prover found unmet.
    ConstraintUnsatisfied,
    /// A proof that verification did not accept.
    VerificationRejected,
    /// Bytes that are not a proof.
    ProofDecode,
    /// A degree that the backend does not support, or a circuit with more rows
    /// than the parameters allow.
    BackendFailure,
}

impl PipelineError {
    /// A line for the user.
    pub fn message(&self) -> (m: &'static str)
        ensures
            m@ == (match *self {
                PipelineError::Configuration => "configuration error"@,
                PipelineError::Witness => "witness error"@,
                PipelineError::ConstraintUnsatisfied => "constraint unsatisfied"@,
                PipelineError::VerificationRejected => "verification rejected"@,
                PipelineError::ProofDecode => "proof decode error"@,
                PipelineError::BackendFailure => "backend failure"@,
            }),
    {
        match self {
            PipelineError::Configuration => "configuration error",
            PipelineError::Witness => "witness error",
            PipelineError::ConstraintUnsatisfied => "constraint unsatisfied",
            PipelineError::VerificationRejected => "verification rejected",
            PipelineError::ProofDecode => "proof decode error",
            PipelineError::BackendFailure => "backend failure",
        }
    }

    /// A refused configuration call is a configuration error.
    pub fn from_config(e: ConfigError) -> (r: PipelineError)
        ensures
            r == PipelineError::Configuration,
    {
        PipelineError::Configuration
    }

    /// A refused synthesis step is a configuration error: the record or the
    /// path does not fit the circuit's shape.
    pub fn from_synthesis(e: SynthesisError) -> (r: PipelineError)
        ensures
            r == PipelineError::Configuration,
    {
        PipelineError::Configuration
    }
}

/// Checks a range claim before any circuit is built: a value outside
/// `[min, max]` is a witness error.
pub fn check_range(min: u64, max: u64, value: u64) -> (r: Result<(), PipelineError>)
    ensures
        r == (if min <= value <= max {
            Ok::<(), PipelineError>(())
        } else {
            Err::<(), PipelineError>(PipelineError::Witness)
        }),
{
    if value < min || value > max {
        Err(PipelineError::Witness)
    } else {
        Ok(())
    }
}

/// A stage of the pipeline, with what it is given.
#[derive(Clone, Copy, Debug, PartialEq, Eq, Structural)]
pub enum Stage {
    /// Generate or load the parameters for circuits of at most `2^k` rows.
    Setup { k: u32 },
    /// Derive the proving and the verifying key of a circuit that uses `rows`
    /// rows.
    KeyGen { rows: u64 },
    /// Prove one fully assigned circuit.
    Prove,
    /// Take a proof that was made before, for verification with these keys.
    LoadProof,
    /// Verify a proof against public inputs.
    Verify,
    /// Export the on-chain verifier of the verifying key.
    ExportVerifier,
}

/// What the pipeline holds: the degree bound of its parameters, the degree
/// bound its keys were derived for, and whether it has a proof.
#[derive(Clone, Copy, Debug, PartialEq, Eq, Structural)]
pub struct Pipeline {
    pub params: Option<u32>,
    pub keys: Option<u32>,
    pub proof: bool,
}

impl Pipeline {
    /// The state after a stage, or why the stage cannot run.
    ///
    /// Setup replaces the parameters and drops keys and proof, which were
    /// derived from the old ones. Key generation needs parameters that leave
    /// room for the circuit's rows, and drops the proof. Proving, and taking
    /// a proof made before, need keys. Verification needs keys and a proof.
    /// Export needs keys.
    pub open spec fn after(self, stage: Stage) -> Result<Pipeline, PipelineError> {
        match stage {
            Stage::Setup { k } => if 0 < k <= MAX_DEGREE {
                if self.params == Some(k) {
                    Ok(self)
                } else {
                    Ok(Pipeline { params: Some(k), keys: None, proof: false })
                }
            } else {
                Err(PipelineError::BackendFailure)
            },
            Stage::KeyGen { rows } => match self.params {
                None => Err(PipelineError::Configuration),
                Some(k) => if rows <= pow2(k as nat) {
                    Ok(Pipeline { params: self.params, keys: Some(k), proof: false })
                } else {
                    Err(PipelineError::BackendFailure)
                },
            },
            Stage::Prove | Stage::LoadProof => if self.keys.is_some() {
                Ok(Pipeline { params: self.params, keys: self.keys, proof: true })
            } else {
                Err(PipelineError::Configuration)
            },
            Stage::Verify => if self.keys.is_some() && self.proof {
                Ok(self)
            } else {
                Err(PipelineError::Configuration)
            },
            Stage::ExportVerifier => if self.keys.is_some() {
                Ok(self)
            } else {
                Err(PipelineError::Configuration)
            },
        }
    }

    /// Parameters, keys and proof were derived in this order from one degree
    /// bound that the backend supports.
    pub open spec fn wf(self) -> bool {
        &&& self.proof ==> self.keys.is_some()
        &&& self.keys.is_some() ==> self.keys == self.params
        &&& self.params.is_some() ==> 0 < self.params.unwrap() <= MAX_DEGREE
    }

    /// A pipeline in which no stage has run.
    pub fn new() -> (p: Pipeline)
        ensures
            p == (Pipeline { params: None, keys: None, proof: false }),
            p.wf(),
    {
        Pipeline { params: None, keys: None, proof: false }
    }

    /// Whether a circuit of `rows` rows fits parameters of degree `k`.
    fn fits(rows: u64, k: u32) -> (r: bool)
        requires
            0 < k <= MAX_DEGREE,
        ensures
            r == (rows <= pow2(k as nat)),
    {
        proof {
            vstd::arithmetic::power2::lemma2_to64();
            assert(1u64 << k == pow2(k as nat)) by {
                vstd::bits::lemma_u64_shl_is_mul(1, k as u64);
                vstd::arithmetic::power2::lemma_pow2_strictly_increases(k as nat, 29);
                vstd::arithmetic::power2::lemma2_to64_rest();
            }
        }
        rows <= (1u64 << k)
    }

    /// Runs the bookkeeping of a stage: the new state, or the error that says
    /// why the stage cannot run, with the state unchanged.
    pub fn advance(&mut self, stage: Stage) -> (r: Result<(), PipelineError>)
        requires
            old(self).wf(),
        ensures
            r.is_ok() ==> old(self).after(stage) == Ok::<Pipeline, PipelineError>(*final(self)),
            r.is_err() ==> old(self).after(stage) == Err::<Pipeline, PipelineError>(r.unwrap_err())
                && *final(self) == *old(self),
            final(self).wf(),
    {
        match stage {
            Stage::Setup { k } => {
                if k == 0 || k > MAX_DEGREE {
                    return Err(PipelineError::BackendFailure);
                }
                let same = match self.params {
                    Some(p) => p == k,
                    None => false,
                };
                if !same {
                    self.params = Some(k);
                    self.keys = None;
                    self.proof = false;
                }
                Ok(())
            },
            Stage::KeyGen { rows } => {
                match self.params {
                    None => Err(PipelineError::Configuration),
                    Some(k) => {
                        if Self::fits(rows, k) {
                            self.keys = Some(k);
                            self.proof = false;
                            Ok(())
                        } else {
                            Err(PipelineError::BackendFailure)
                        }
                    },
                }
            },
            Stage::Prove | Stage::LoadProof => {
                if self.keys.is_some() {
                    self.proof = true;
                    Ok(())
                } else {
                    Err(PipelineError::Configuration)
                }
            },
            Stage::Verify => {
                if self.keys.is_some() && self.proof {
                    Ok(())
                } else {
                    Err(PipelineError::Configuration)
                }
            },
            Stage::ExportVerifier => {
                if self.keys.is_some() {
                    Ok(())
                } else {
                    Err(PipelineError::Configuration)
                }
            },
        }
    }

    /// Every stage is idempotent: run again on the state it produced, with the
    /// same input, it succeeds and changes nothing, as long as no other stage
    /// ran in between. Key generation and proving may be repeated at will.
    pub proof fn lemma_stage_idempotent(self, stage: Stage)
        requires
            self.wf(),
            self.after(stage).is_ok(),
        ensures
            self.after(stage).unwrap().after(stage) == self.after(stage),
            self.after(stage).unwrap().wf(),
    {
    }

    /// The stages are strictly ordered: in a pipeline in which no stage has
    /// run, nothing but setup can run; without keys nothing can be proved,
    /// verified or exported; without a proof nothing can be verified.
    pub proof fn lemma_stage_order(self, stage: Stage)
        requires
            self.wf(),
        ensures
            self.params.is_none() && !(stage is Setup) ==> self.after(stage).is_err(),
            self.keys.is_none() && (stage is Prove || stage is LoadProof || stage is Verify
                || stage is ExportVerifier)
                ==> self.after(stage) == Err::<Pipeline, PipelineError>(
                PipelineError::Configuration,
            ),
            !self.proof && stage is Verify ==> self.after(stage) == Err::<Pipeline, PipelineError>(
                PipelineError::Configuration,
            ),
    {
    }
}

} // verus!
