//! The range circuit in the form the proof pipeline consumes: built from
//! `(min, max, value)`, with the three advice columns of the public inputs held
//! as an array. It proves `min <= value <= max` with the same gate, limbs and
//! lookups as `range_proof`, and exposes `[min, max, value]` in that order.

use vstd::prelude::*;
use crate::field::Scalar;
use crate::plonk::{Column, ConstraintSystem, Selector};
use crate::range_proof::{
    RangeProofCircuit as BoundedCircuit,
    RangeProofConfig as BoundedConfig,
    RANGE_ADVICE_COLUMNS,
};
use crate::synthesis::{Layouter, SynthesisError};

verus! {

/// The number of public inputs of the range circuit.
pub const RANGE_INSTANCES: usize = 3;

/// Range proof circuit configuration.
#[derive(Clone, Debug)]
pub struct RangeProofConfig {
    /// The advice columns of the minimum, the maximum and the value.
    pub advice: [Column; 3],
    /// Fixed column for constants.
    pub fixed: Column,
    /// Instance column for the public inputs.
    pub instance: Column,
    /// Selector of the range gate.
    pub selector: Selector,
    /// Every column of the circuit, the differences and their limbs included.
    pub range: BoundedConfig,
}

impl RangeProofConfig {
    /// The array and the named columns are those of the full configuration.
    pub open spec fn wf(self) -> bool {
        &&& self.range.wf()
        &&& self.advice[0] == self.range.min_bound
        &&& self.advice[1] == self.range.max_bound
        &&& self.advice[2] == self.range.value
        &&& self.fixed == self.range.constant
        &&& self.instance == self.range.instance
        &&& self.selector == self.range.selector
    }
}

/// Range proof circuit - proves: `min <= value <= max`. A field that is `None`
/// is a witness that is not known.
#[derive(Clone, Copy, Debug)]
pub struct RangeProofCircuit {
    pub min: Option<Scalar>,
    pub max: Option<Scalar>,
    pub value: Option<Scalar>,
}

impl Default for RangeProofCircuit {
    fn default() -> (c: Self)
        ensures
            c.min.is_none(),
            c.max.is_none(),
            c.value.is_none(),
    {
        RangeProofCircuit { min: None, max: None, value: None }
    }
}

/// The known ones among three witnesses, in order.
pub open spec fn known(a: Option<Scalar>, b: Option<Scalar>, c: Option<Scalar>) -> Seq<Scalar> {
    let first = if a.is_some() {
        seq![a.unwrap()]
    } else {
        Seq::<Scalar>::empty()
    };
    let second = if b.is_some() {
        first.push(b.unwrap())
    } else {
        first
    };
    if c.is_some() {
        second.push(c.unwrap())
    } else {
        second
    }
}

impl RangeProofCircuit {
    /// The same claim as a circuit of `range_proof`.
    pub open spec fn bounded(self) -> BoundedCircuit {
        BoundedCircuit { bid_value: self.value, min_bid: self.min, max_bid: self.max }
    }

    pub fn new(min: u64, max: u64, value: u64) -> (c: Self)
        ensures
            c.min == Some(Scalar::of_u64(min)),
            c.max == Some(Scalar::of_u64(max)),
            c.value == Some(Scalar::of_u64(value)),
    {
        RangeProofCircuit {
            min: Some(Scalar::from_u64(min)),
            max: Some(Scalar::from_u64(max)),
            value: Some(Scalar::from_u64(value)),
        }
    }

    /// The same circuit with every witness unknown.
    pub fn without_witnesses(&self) -> (c: Self)
        ensures
            c.min.is_none(),
            c.max.is_none(),
            c.value.is_none(),
    {
        RangeProofCircuit { min: None, max: None, value: None }
    }

    /// Get instances for proof generation: the known ones among minimum,
    /// maximum and value, in that order.
    pub fn get_instances(&self) -> (r: Vec<Scalar>)
        ensures
            r@ == known(self.min, self.max, self.value),
    {
        let mut result: Vec<Scalar> = Vec::new();
        match self.min {
            Some(v) => {
                result.push(v);
            },
            None => {},
        }
        match self.max {
            Some(v) => {
                result.push(v);
            },
            None => {},
        }
        match self.value {
            Some(v) => {
                result.push(v);
            },
            None => {},
        }
        result
    }

    /// The number of public inputs in each instance column: one column of
    /// three, for minimum, maximum and value.
    pub fn num_instance(&self) -> (r: Vec<usize>)
        ensures
            r@ == seq![RANGE_INSTANCES],
    {
        let mut r: Vec<usize> = Vec::new();
        r.push(RANGE_INSTANCES);
        r
    }

    /// The public inputs, one vector for each instance column.
    pub fn instances(&self) -> (r: Vec<Vec<Scalar>>)
        ensures
            r@.len() == 1,
            r@[0]@ == known(self.min, self.max, self.value),
    {
        let mut r: Vec<Vec<Scalar>> = Vec::new();
        r.push(self.get_instances());
        r
    }

    /// Creates the constraint system configuration of the range circuit.
    pub fn configure(meta: &mut ConstraintSystem) -> (cfg: RangeProofConfig)
        requires
            old(meta).wf(),
            old(meta).num_advice + RANGE_ADVICE_COLUMNS <= usize::MAX,
            old(meta).num_fixed < usize::MAX,
            old(meta).num_instance < usize::MAX,
            old(meta).num_selectors < usize::MAX,
            old(meta).num_tables < usize::MAX,
        ensures
            cfg.wf(),
            cfg.range.configures(*old(meta), *final(meta)),
            final(meta).wf(),
    {
        let range = BoundedConfig::configure(meta);
        RangeProofConfig {
            advice: [range.min_bound, range.max_bound, range.value],
            fixed: range.constant,
            instance: range.instance,
            selector: range.selector,
            range,
        }
    }

    /// Lays the circuit out and exposes minimum, maximum and value as rows 0,
    /// 1 and 2 of the instance column. Refused, with the record unchanged,
    /// when the record's descriptor did not enable equality on one of the four
    /// columns that the bindings need.
    pub fn synthesize(&self, config: RangeProofConfig, layouter: &mut Layouter) -> (r: Result<
        (),
        SynthesisError,
    >)
        requires
            config.wf(),
        ensures
            r.is_ok() <==> old(layouter).equality@.contains(config.advice[0]) && old(
                layouter,
            ).equality@.contains(config.advice[1]) && old(layouter).equality@.contains(
                config.advice[2],
            ) && old(layouter).equality@.contains(config.instance),
            r.is_err() ==> r == Err::<(), SynthesisError>(SynthesisError::ColumnNotInPermutation)
                && *final(layouter) == *old(layouter),
            r.is_ok() ==> self.bounded().laid_out(config.range, *old(layouter), *final(layouter)),
    {
        let circuit = BoundedCircuit { bid_value: self.value, min_bid: self.min, max_bid: self.max };
        circuit.synthesize(config.range, layouter)
    }
}

} // verus!
