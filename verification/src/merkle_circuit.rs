//! The Merkle membership circuit: a secret leaf, hashed level by level with
//! the siblings of its path, reproduces the public root.
//!
//! Public inputs: `[root]`.
//!
//! The node hash is the Poseidon sponge that the nullifier circuit uses, with
//! the same parameters. At each level the direction is constrained to be a
//! bit and selects the order of the hash inputs: `0` hashes
//! `(digest, sibling)`, `1` hashes `(sibling, digest)`. The digest of the last
//! level is constrained equal to the cell of the claimed root, which is the
//! circuit's one public input.
//!
//! The circuit is assembled in a circuit builder of `halo2_base`, cell by
//! cell, one sponge run for each level.

use vstd::prelude::*;
use vstd::arithmetic::power2::{lemma2_to64, lemma_pow2_strictly_increases};
use crate::builder::{
    assert_bit,
    builder_bits,
    builder_cells,
    builder_equalities,
    builder_hashes,
    builder_instances,
    builder_k,
    builder_lookup_bits,
    builder_params_calculated,
    builder_records_constraints,
    builder_selections,
    calculate_params,
    constrain_equal,
    expose,
    hash_pair,
    lemma_pick_bit,
    lemma_ties_survive,
    load_witness,
    new_builder,
    own_ties_hold,
    pick,
    poseidon,
    poseidon_hash,
    public_values,
    select,
    set_instance_columns,
    set_k,
    set_lookup_bits,
    ties_hold,
    witness_satisfies,
    CircuitBuilder,
    CircuitBuilderStage,
    MINIMUM_ROWS,
};
use crate::field::{modulus, Scalar};
use crate::nullifier_circuit::{degree_supported, MINIMUM_DEGREE};
use crate::plonk::ConfigError;
use crate::synthesis::witness_or_zero;

verus! {

/// The number of public inputs of the Merkle circuit.
pub const MERKLE_INSTANCES: usize = 1;

/// The digest one level up: the hash of the digest and the sibling, in the
/// order that the direction selects.
pub open spec fn hash_level(digest: nat, sibling: nat, direction: nat) -> nat {
    poseidon_hash(pick(sibling, digest, direction), pick(digest, sibling, direction))
}

/// The digest `n` levels above the leaf.
pub open spec fn climb(leaf: nat, siblings: Seq<nat>, directions: Seq<nat>, n: nat) -> nat
    decreases n,
{
    if n == 0 {
        leaf
    } else {
        hash_level(
            climb(leaf, siblings, directions, (n - 1) as nat),
            siblings[n - 1],
            directions[n - 1],
        )
    }
}

/// With a bit as the direction, the level hash is the hash of the digest and
/// the sibling in the order the bit says.
pub proof fn lemma_hash_level_bit(digest: nat, sibling: nat)
    requires
        digest < modulus(),
        sibling < modulus(),
    ensures
        hash_level(digest, sibling, 0) == poseidon_hash(digest, sibling),
        hash_level(digest, sibling, 1) == poseidon_hash(sibling, digest),
{
    lemma_pick_bit(sibling, digest);
    lemma_pick_bit(digest, sibling);
}

/// The digest of a level depends on the path up to that level only.
pub proof fn lemma_climb_agrees(
    leaf: nat,
    siblings: Seq<nat>,
    directions: Seq<nat>,
    other_siblings: Seq<nat>,
    other_directions: Seq<nat>,
    n: nat,
)
    requires
        forall|j: int| 0 <= j < n ==> #[trigger] siblings[j] == other_siblings[j],
        forall|j: int| 0 <= j < n ==> #[trigger] directions[j] == other_directions[j],
    ensures
        climb(leaf, siblings, directions, n) == climb(leaf, other_siblings, other_directions, n),
    decreases n,
{
    if n > 0 {
        lemma_climb_agrees(
            leaf,
            siblings,
            directions,
            other_siblings,
            other_directions,
            (n - 1) as nat,
        );
        assert(siblings[n - 1] == other_siblings[n - 1]);
        assert(directions[n - 1] == other_directions[n - 1]);
    }
}

/// The cells that hold the inputs of the circuit, in the order they are
/// loaded: the claimed root, the leaf, then for each of the first `n` levels
/// the sibling and the direction.
pub open spec fn input_cells(
    root: nat,
    leaf: nat,
    siblings: Seq<nat>,
    directions: Seq<nat>,
    n: nat,
) -> Seq<nat>
    decreases n,
{
    if n == 0 {
        seq![root, leaf]
    } else {
        input_cells(root, leaf, siblings, directions, (n - 1) as nat).push(siblings[n - 1]).push(
            directions[n - 1],
        )
    }
}

/// Where the inputs of each level lie among the input cells.
pub proof fn lemma_input_cells(
    root: nat,
    leaf: nat,
    siblings: Seq<nat>,
    directions: Seq<nat>,
    n: nat,
)
    ensures
        input_cells(root, leaf, siblings, directions, n).len() == 2 + 2 * n,
        input_cells(root, leaf, siblings, directions, n)[0] == root,
        input_cells(root, leaf, siblings, directions, n)[1] == leaf,
        forall|j: int|
            0 <= j < n ==> #[trigger] input_cells(root, leaf, siblings, directions, n)[2 + 2 * j]
                == siblings[j],
        forall|j: int|
            0 <= j < n ==> #[trigger] input_cells(root, leaf, siblings, directions, n)[3 + 2 * j]
                == directions[j],
    decreases n,
{
    if n > 0 {
        lemma_input_cells(root, leaf, siblings, directions, (n - 1) as nat);
        let below = input_cells(root, leaf, siblings, directions, (n - 1) as nat);
        let here = input_cells(root, leaf, siblings, directions, n);
        assert forall|j: int| 0 <= j < n implies #[trigger] here[2 + 2 * j] == siblings[j] by {
            if j < n - 1 {
                assert(here[2 + 2 * j] == below[2 + 2 * j]);
            }
        }
        assert forall|j: int| 0 <= j < n implies #[trigger] here[3 + 2 * j] == directions[j] by {
            if j < n - 1 {
                assert(here[3 + 2 * j] == below[3 + 2 * j]);
            }
        }
    }
}

/// The shape of one Merkle circuit: the number of levels of its tree, its
/// degree bound and the size of its lookup table.
#[derive(Clone, Copy, Debug, PartialEq, Eq, Structural)]
pub struct MerkleConfig {
    /// The number of levels of the tree.
    pub depth: usize,
    /// The circuit has `2^k` rows.
    pub k: usize,
    /// The lookup table holds `2^lookup_bits` values.
    pub lookup_bits: usize,
}

impl MerkleConfig {
    /// Fixes the shape of the circuit of a tree of `depth` levels. Refused
    /// when the backend cannot calculate parameters for the degree bound.
    pub fn configure(depth: usize, k: usize, lookup_bits: usize) -> (r: Result<
        MerkleConfig,
        ConfigError,
    >)
        ensures
            r == (if degree_supported(k) {
                Ok::<MerkleConfig, ConfigError>(MerkleConfig { depth, k, lookup_bits })
            } else {
                Err::<MerkleConfig, ConfigError>(ConfigError::UnsupportedDegree)
            }),
    {
        if MINIMUM_DEGREE <= k && k < usize::BITS as usize {
            Ok(MerkleConfig { depth, k, lookup_bits })
        } else {
            Err(ConfigError::UnsupportedDegree)
        }
    }
}

/// A leaf and its path to the root. A witness that is `None` is not known and
/// is laid out as zero, as key generation does.
#[derive(Clone, Debug)]
pub struct MerkleCircuit {
    pub leaf: Option<Scalar>,
    /// The sibling at each level, from the leaf up.
    pub path_elements: Vec<Option<Scalar>>,
    /// The direction at each level: 0 when the running digest is the left
    /// input of the hash, 1 when it is the right input.
    pub path_indices: Vec<Option<Scalar>>,
}

impl Default for MerkleCircuit {
    fn default() -> (c: Self)
        ensures
            c.leaf.is_none(),
            c.path_elements@.len() == 0,
            c.path_indices@.len() == 0,
    {
        MerkleCircuit { leaf: None, path_elements: Vec::new(), path_indices: Vec::new() }
    }
}

/// One level of the circuit: the two selections put the digest below and the
/// sibling of level `i` in the order that the direction of the level says, the
/// sponge run hashes them into the digest above, and the direction has a bit
/// gate.
pub open spec fn level_tied(
    b: CircuitBuilder,
    i: int,
    below: nat,
    left: nat,
    right: nat,
    above: nat,
) -> bool {
    let sibling = (2 + 2 * i) as nat;
    let direction = (3 + 2 * i) as nat;
    &&& builder_selections(b).contains((sibling, below, direction, left))
    &&& builder_selections(b).contains((below, sibling, direction, right))
    &&& builder_hashes(b).contains((left, right, above))
    &&& builder_bits(b).contains(direction)
}

/// The levels of the circuit hang together: the digest below the first level
/// is the cell of the leaf, and the digest above each level is the digest
/// below the next.
pub open spec fn chain_tied(
    b: CircuitBuilder,
    depth: nat,
    digests: Seq<nat>,
    lefts: Seq<nat>,
    rights: Seq<nat>,
) -> bool {
    &&& digests.len() == depth + 1
    &&& lefts.len() == depth
    &&& rights.len() == depth
    &&& digests[0] == 1
    &&& forall|i: int|
        0 <= i < depth ==> level_tied(b, i, digests[i], #[trigger] lefts[i], rights[i], digests[i + 1])
}

/// The shape of the Merkle circuit of a tree of `depth` levels, whatever its
/// witnesses. The first cells are those of the claimed root, of the leaf, and
/// for each level of the sibling and the direction. Each level is tied as
/// `level_tied` says, the levels hang together, and the digest above the last
/// level is constrained equal to the cell of the claimed root. The one
/// instance column exposes the cell of the claimed root.
pub open spec fn has_merkle_shape(b: CircuitBuilder, depth: nat) -> bool {
    &&& builder_cells(b).len() >= 2 + 2 * depth
    &&& exists|digests: Seq<nat>, lefts: Seq<nat>, rights: Seq<nat>| #[trigger]
        chain_tied(b, depth, digests, lefts, rights) && builder_equalities(b).contains(
            (digests[depth as int], 0nat),
        )
    &&& builder_instances(b) == seq![seq![0nat]]
}

/// The siblings that an assignment of values to the cells gives the circuit.
pub open spec fn witness_siblings(w: Seq<nat>, depth: nat) -> Seq<nat> {
    Seq::new(depth, |j: int| w[2 + 2 * j])
}

/// The directions that an assignment of values to the cells gives the
/// circuit.
pub open spec fn witness_directions(w: Seq<nat>, depth: nat) -> Seq<nat> {
    Seq::new(depth, |j: int| w[3 + 2 * j])
}

/// In an assignment that meets what the sponge runs and the selections claim,
/// the digest cell above each level holds the digest that the leaf, the
/// siblings and the directions of the assignment lead to.
pub proof fn lemma_chain(
    b: CircuitBuilder,
    depth: nat,
    digests: Seq<nat>,
    lefts: Seq<nat>,
    rights: Seq<nat>,
    w: Seq<nat>,
    n: nat,
)
    requires
        chain_tied(b, depth, digests, lefts, rights),
        ties_hold(builder_hashes(b), builder_selections(b), w),
        n <= depth,
    ensures
        w[digests[n as int] as int] == climb(
            w[1],
            witness_siblings(w, depth),
            witness_directions(w, depth),
            n,
        ),
    decreases n,
{
    if n > 0 {
        let i = (n - 1) as int;
        lemma_chain(b, depth, digests, lefts, rights, w, (n - 1) as nat);
        assert(level_tied(b, i, digests[i], lefts[i], rights[i], digests[i + 1]));
        let sibling = (2 + 2 * i) as nat;
        let direction = (3 + 2 * i) as nat;
        assert(builder_selections(b).contains((sibling, digests[i], direction, lefts[i])));
        assert(builder_selections(b).contains((digests[i], sibling, direction, rights[i])));
        assert(builder_hashes(b).contains((lefts[i], rights[i], digests[i + 1])));
        assert(witness_siblings(w, depth)[n - 1] == w[2 + 2 * i]);
        assert(witness_directions(w, depth)[n - 1] == w[3 + 2 * i]);
    }
}

impl MerkleCircuit {
    /// The siblings as integers, an unknown one standing as zero.
    pub open spec fn siblings(self) -> Seq<nat> {
        Seq::new(self.path_elements@.len(), |i: int| witness_or_zero(self.path_elements@[i]))
    }

    /// The directions as integers, an unknown one standing as zero.
    pub open spec fn directions(self) -> Seq<nat> {
        Seq::new(self.path_indices@.len(), |i: int| witness_or_zero(self.path_indices@[i]))
    }

    /// The leaf and the first `n` levels of the path are known, and the
    /// directions of those levels are bits.
    pub open spec fn valid_up_to(self, n: int) -> bool {
        &&& self.leaf.is_some()
        &&& forall|j: int|
            0 <= j < n ==> (#[trigger] self.path_elements@[j]).is_some()
                && self.path_indices@[j].is_some() && self.path_indices@[j].unwrap().value() < 2
    }

    /// The digest `n` levels above the leaf, an unknown witness standing as
    /// zero.
    pub open spec fn digest(self, n: nat) -> nat {
        climb(witness_or_zero(self.leaf), self.siblings(), self.directions(), n)
    }

    /// Builds the circuit of a leaf and its path in a tree of `depth` levels.
    /// Refused when the path does not have exactly `depth` siblings and
    /// `depth` directions. A direction is `true` when the running digest is
    /// the right input of the hash.
    pub fn build(leaf: Scalar, siblings: Vec<Scalar>, directions: Vec<bool>, depth: usize) -> (r:
        Result<MerkleCircuit, ConfigError>)
        ensures
            r.is_ok() <==> siblings@.len() == depth && directions@.len() == depth,
            r.is_err() ==> r == Err::<MerkleCircuit, ConfigError>(ConfigError::PathLengthMismatch),
            r.is_ok() ==> {
                let c = r.unwrap();
                &&& c.leaf == Some(leaf)
                &&& c.path_elements@.len() == depth
                &&& c.path_indices@.len() == depth
                &&& forall|i: int|
                    0 <= i < depth ==> #[trigger] c.path_elements@[i] == Some(siblings@[i])
                &&& forall|i: int|
                    0 <= i < depth ==> #[trigger] c.path_indices@[i] == Some(
                        Scalar::of_u64(
                            if directions@[i] {
                                1u64
                            } else {
                                0u64
                            },
                        ),
                    )
                &&& c.valid_up_to(depth as int)
            },
    {
        if siblings.len() != depth || directions.len() != depth {
            return Err(ConfigError::PathLengthMismatch);
        }
        let mut path_elements: Vec<Option<Scalar>> = Vec::new();
        let mut path_indices: Vec<Option<Scalar>> = Vec::new();
        let mut i: usize = 0;
        while i < depth
            invariant
                i <= depth,
                siblings@.len() == depth,
                directions@.len() == depth,
                path_elements@.len() == i,
                path_indices@.len() == i,
                forall|j: int| 0 <= j < i ==> #[trigger] path_elements@[j] == Some(siblings@[j]),
                forall|j: int|
                    0 <= j < i ==> #[trigger] path_indices@[j] == Some(
                        Scalar::of_u64(
                            if directions@[j] {
                                1u64
                            } else {
                                0u64
                            },
                        ),
                    ),
            decreases depth - i,
        {
            path_elements.push(Some(siblings[i]));
            let bit: u64 = if directions[i] {
                1
            } else {
                0
            };
            path_indices.push(Some(Scalar::from_u64(bit)));
            i = i + 1;
        }
        proof {
            assert forall|j: int| 0 <= j < depth implies (#[trigger] path_elements@[j]).is_some()
                && path_indices@[j].is_some() && path_indices@[j].unwrap().value() < 2 by {
                Scalar::lemma_of_u64_value(
                    if directions@[j] {
                        1u64
                    } else {
                        0u64
                    },
                );
            }
        }
        Ok(MerkleCircuit { leaf: Some(leaf), path_elements, path_indices })
    }

    /// The same path with every witness unknown: the circuit keeps its depth.
    pub fn without_witnesses(&self) -> (c: Self)
        ensures
            c.leaf.is_none(),
            c.path_elements@.len() == self.path_elements@.len(),
            c.path_indices@.len() == self.path_indices@.len(),
            forall|i: int| 0 <= i < c.path_elements@.len() ==> (#[trigger] c.path_elements@[i]).is_none(),
            forall|i: int| 0 <= i < c.path_indices@.len() ==> (#[trigger] c.path_indices@[i]).is_none(),
    {
        let mut path_elements: Vec<Option<Scalar>> = Vec::new();
        let mut i: usize = 0;
        while i < self.path_elements.len()
            invariant
                i <= self.path_elements@.len(),
                path_elements@.len() == i,
                forall|j: int| 0 <= j < i ==> (#[trigger] path_elements@[j]).is_none(),
            decreases self.path_elements@.len() - i,
        {
            path_elements.push(None);
            i = i + 1;
        }
        let mut path_indices: Vec<Option<Scalar>> = Vec::new();
        let mut i: usize = 0;
        while i < self.path_indices.len()
            invariant
                i <= self.path_indices@.len(),
                path_indices@.len() == i,
                forall|j: int| 0 <= j < i ==> (#[trigger] path_indices@[j]).is_none(),
            decreases self.path_indices@.len() - i,
        {
            path_indices.push(None);
            i = i + 1;
        }
        MerkleCircuit { leaf: None, path_elements, path_indices }
    }

    /// Whether the leaf and every level of the path are known and every
    /// direction is a bit.
    fn is_valid(&self) -> (r: bool)
        requires
            self.path_elements@.len() == self.path_indices@.len(),
        ensures
            r == self.valid_up_to(self.path_elements@.len() as int),
    {
        if self.leaf.is_none() {
            return false;
        }
        let mut i: usize = 0;
        while i < self.path_elements.len()
            invariant
                i <= self.path_elements@.len(),
                self.path_elements@.len() == self.path_indices@.len(),
                self.leaf.is_some(),
                self.valid_up_to(i as int),
            decreases self.path_elements@.len() - i,
        {
            let known = match (self.path_elements[i], self.path_indices[i]) {
                (Some(_), Some(d)) => match d.to_u64() {
                    Some(bit) => bit < 2,
                    None => false,
                },
                _ => false,
            };
            if !known {
                assert(!self.valid_up_to(self.path_elements@.len() as int)) by {
                    if self.valid_up_to(self.path_elements@.len() as int) {
                        assert(self.path_elements@[i as int].is_some());
                    }
                }
                return false;
            }
            assert(self.valid_up_to(i + 1)) by {
                assert forall|j: int| 0 <= j < i + 1 implies (
                #[trigger] self.path_elements@[j]).is_some() && self.path_indices@[j].is_some()
                    && self.path_indices@[j].unwrap().value() < 2 by {
                    if j < i {
                        assert(self.path_elements@[j].is_some());
                    }
                }
            }
            i = i + 1;
        }
        true
    }

    /// The root that the path leads to: `None` when a witness is unknown, a
    /// direction is not a bit, or the path has not as many directions as
    /// siblings.
    pub fn root(&self) -> (r: Option<Scalar>)
        ensures
            r.is_some() <==> self.path_elements@.len() == self.path_indices@.len()
                && self.valid_up_to(self.path_elements@.len() as int),
            r.is_some() ==> r.unwrap().value() == self.digest(self.path_elements@.len()),
    {
        if self.path_elements.len() != self.path_indices.len() {
            return None;
        }
        if !self.is_valid() {
            return None;
        }
        let mut digest = match self.leaf {
            Some(l) => l,
            None => unreached(),
        };
        let mut i: usize = 0;
        while i < self.path_elements.len()
            invariant
                i <= self.path_elements@.len(),
                self.path_elements@.len() == self.path_indices@.len(),
                self.valid_up_to(self.path_elements@.len() as int),
                digest.value() == self.digest(i as nat),
            decreases self.path_elements@.len() - i,
        {
            assert(self.path_elements@[i as int].is_some());
            let sibling = match self.path_elements[i] {
                Some(s) => s,
                None => unreached(),
            };
            let direction = match self.path_indices[i] {
                Some(d) => d,
                None => unreached(),
            };
            proof {
                digest.lemma_value_bound();
                sibling.lemma_value_bound();
                lemma_hash_level_bit(digest.value(), sibling.value());
                assert(self.siblings()[i as int] == sibling.value());
                assert(self.directions()[i as int] == direction.value());
            }
            digest = if direction.is_zero() {
                hash_pair(&digest, &sibling)
            } else {
                hash_pair(&sibling, &digest)
            };
            i = i + 1;
        }
        Some(digest)
    }

    /// The public inputs: one column holding the root, zero when the path
    /// does not lead to one.
    pub fn instances(&self) -> (r: Vec<Vec<Scalar>>)
        ensures
            r@.len() == 1,
            r@[0]@.len() == MERKLE_INSTANCES,
            r@[0]@[0].value() == (if self.path_elements@.len() == self.path_indices@.len()
                && self.valid_up_to(self.path_elements@.len() as int) {
                self.digest(self.path_elements@.len())
            } else {
                0nat
            }),
    {
        let root = match self.root() {
            Some(r) => r,
            None => Scalar::zero(),
        };
        let mut column: Vec<Scalar> = Vec::new();
        column.push(root);
        let mut r: Vec<Vec<Scalar>> = Vec::new();
        r.push(column);
        r
    }

    /// The number of public inputs in each instance column: one column of
    /// one, for the root.
    pub fn num_instance(&self) -> (r: Vec<usize>)
        ensures
            r@ == seq![MERKLE_INSTANCES],
    {
        let mut r: Vec<usize> = Vec::new();
        r.push(MERKLE_INSTANCES);
        r
    }

    /// What `synthesize` assembles: a circuit of the Merkle shape whose first
    /// cells hold the claimed root, the leaf, and for each level the sibling
    /// and the direction, and whose other cells meet what its sponge runs and
    /// its selections claim.
    pub open spec fn laid_out(self, root: nat, b: CircuitBuilder) -> bool {
        let depth = self.path_elements@.len();
        &&& has_merkle_shape(b, depth)
        &&& input_cells(
            root,
            witness_or_zero(self.leaf),
            self.siblings(),
            self.directions(),
            depth,
        ).is_prefix_of(builder_cells(b))
        &&& own_ties_hold(b)
    }

    /// The value of a witness, zero when it is not known.
    fn known_or_zero(v: Option<Scalar>) -> (s: Scalar)
        ensures
            s.value() == witness_or_zero(v),
    {
        match v {
            Some(s) => s,
            None => Scalar::zero(),
        }
    }

    /// Loads the claimed root, the leaf, and the sibling and the direction of
    /// each level, and returns the offsets of the sibling cells and of the
    /// direction cells.
    fn load_path(&self, builder: &mut CircuitBuilder, root: Option<Scalar>) -> (cells: (
        Vec<usize>,
        Vec<usize>,
    ))
        requires
            builder_cells(*old(builder)).len() == 0,
            builder_records_constraints(*old(builder)),
            self.path_elements@.len() == self.path_indices@.len(),
        ensures
            builder_cells(*final(builder)) == input_cells(
                witness_or_zero(root),
                witness_or_zero(self.leaf),
                self.siblings(),
                self.directions(),
                self.path_elements@.len(),
            ),
            cells.0@.len() == self.path_elements@.len(),
            cells.1@.len() == self.path_elements@.len(),
            forall|j: int| 0 <= j < self.path_elements@.len() ==> #[trigger] cells.0@[j] == 2 + 2 * j,
            forall|j: int| 0 <= j < self.path_elements@.len() ==> #[trigger] cells.1@[j] == 3 + 2 * j,
            builder_k(*final(builder)) == builder_k(*old(builder)),
            builder_lookup_bits(*final(builder)) == builder_lookup_bits(*old(builder)),
            builder_params_calculated(*final(builder)) == builder_params_calculated(*old(builder)),
            builder_equalities(*final(builder)) == builder_equalities(*old(builder)),
            builder_instances(*final(builder)) == builder_instances(*old(builder)),
            builder_records_constraints(*final(builder)),
            builder_bits(*final(builder)) == builder_bits(*old(builder)),
            builder_hashes(*final(builder)) == builder_hashes(*old(builder)),
            builder_selections(*final(builder)) == builder_selections(*old(builder)),
    {
        let ghost sibs = self.siblings();
        let ghost dirs = self.directions();
        let ghost r = witness_or_zero(root);
        let ghost l = witness_or_zero(self.leaf);
        let root_value = Self::known_or_zero(root);
        let leaf_value = Self::known_or_zero(self.leaf);
        proof {
            root_value.lemma_value_bound();
            leaf_value.lemma_value_bound();
        }
        let root_cell = load_witness(builder, root_value.to_limbs());
        let leaf_cell = load_witness(builder, leaf_value.to_limbs());
        assert(builder_cells(*builder) =~= seq![r, l]);
        let mut sibling_cells: Vec<usize> = Vec::new();
        let mut direction_cells: Vec<usize> = Vec::new();
        let mut i: usize = 0;
        while i < self.path_elements.len()
            invariant
                i <= self.path_elements@.len(),
                self.path_elements@.len() == self.path_indices@.len(),
                sibs == self.siblings(),
                dirs == self.directions(),
                builder_cells(*builder) == input_cells(r, l, sibs, dirs, i as nat),
                sibling_cells@.len() == i,
                direction_cells@.len() == i,
                forall|j: int| 0 <= j < i ==> #[trigger] sibling_cells@[j] == 2 + 2 * j,
                forall|j: int| 0 <= j < i ==> #[trigger] direction_cells@[j] == 3 + 2 * j,
                builder_k(*builder) == builder_k(*old(builder)),
                builder_lookup_bits(*builder) == builder_lookup_bits(*old(builder)),
                builder_params_calculated(*builder) == builder_params_calculated(*old(builder)),
                builder_equalities(*builder) == builder_equalities(*old(builder)),
                builder_instances(*builder) == builder_instances(*old(builder)),
                builder_records_constraints(*builder),
                builder_bits(*builder) == builder_bits(*old(builder)),
                builder_hashes(*builder) == builder_hashes(*old(builder)),
                builder_selections(*builder) == builder_selections(*old(builder)),
            decreases self.path_elements@.len() - i,
        {
            let sibling = Self::known_or_zero(self.path_elements[i]);
            let direction = Self::known_or_zero(self.path_indices[i]);
            proof {
                lemma_input_cells(r, l, sibs, dirs, i as nat);
                sibling.lemma_value_bound();
                direction.lemma_value_bound();
                assert(sibs[i as int] == sibling.value());
                assert(dirs[i as int] == direction.value());
            }
            let sibling_cell = load_witness(builder, sibling.to_limbs());
            let direction_cell = load_witness(builder, direction.to_limbs());
            sibling_cells.push(sibling_cell);
            direction_cells.push(direction_cell);
            i = i + 1;
        }
        (sibling_cells, direction_cells)
    }

    /// Lays one level out: a bit gate on the direction, the two selections
    /// that put the digest and the sibling in the order the direction says,
    /// and the sponge run that hashes them. Returns the offsets of the two
    /// selected cells and of the digest above.
    fn hash_up(builder: &mut CircuitBuilder, sibling: usize, digest: usize, direction: usize) -> (out:
        (usize, usize, usize))
        requires
            sibling < builder_cells(*old(builder)).len(),
            digest < builder_cells(*old(builder)).len(),
            direction < builder_cells(*old(builder)).len(),
            builder_records_constraints(*old(builder)),
            own_ties_hold(*old(builder)),
        ensures
            builder_cells(*old(builder)).is_prefix_of(builder_cells(*final(builder))),
            out.2 < builder_cells(*final(builder)).len(),
            builder_selections(*final(builder)).contains(
                (sibling as nat, digest as nat, direction as nat, out.0 as nat),
            ),
            builder_selections(*final(builder)).contains(
                (digest as nat, sibling as nat, direction as nat, out.1 as nat),
            ),
            builder_hashes(*final(builder)).contains((out.0 as nat, out.1 as nat, out.2 as nat)),
            builder_bits(*final(builder)).contains(direction as nat),
            builder_selections(*old(builder)).subset_of(builder_selections(*final(builder))),
            builder_hashes(*old(builder)).subset_of(builder_hashes(*final(builder))),
            builder_bits(*old(builder)).subset_of(builder_bits(*final(builder))),
            own_ties_hold(*final(builder)),
            builder_k(*final(builder)) == builder_k(*old(builder)),
            builder_lookup_bits(*final(builder)) == builder_lookup_bits(*old(builder)),
            builder_params_calculated(*final(builder)) == builder_params_calculated(*old(builder)),
            builder_equalities(*old(builder)).is_prefix_of(builder_equalities(*final(builder))),
            builder_instances(*final(builder)) == builder_instances(*old(builder)),
            builder_records_constraints(*final(builder)),
    {
        let ghost b0 = *builder;
        // The direction is a bit, and picks the order of the hash inputs
        assert_bit(builder, direction);
        let ghost b1 = *builder;
        proof {
            lemma_ties_survive(
                builder_hashes(b0),
                builder_selections(b0),
                builder_cells(b0),
                builder_cells(b1),
            );
        }
        let left = select(builder, sibling, digest, direction);
        let ghost b2 = *builder;
        proof {
            lemma_ties_survive(
                builder_hashes(b1),
                builder_selections(b1),
                builder_cells(b1),
                builder_cells(b2),
            );
            assert(own_ties_hold(b2));
        }
        let right = select(builder, digest, sibling, direction);
        let ghost b3 = *builder;
        proof {
            lemma_ties_survive(
                builder_hashes(b2),
                builder_selections(b2),
                builder_cells(b2),
                builder_cells(b3),
            );
            assert(own_ties_hold(b3));
            assert(builder_cells(b3)[left as int] == builder_cells(b2)[left as int]);
        }
        let next = poseidon(builder, left, right);
        proof {
            lemma_ties_survive(
                builder_hashes(b3),
                builder_selections(b3),
                builder_cells(b3),
                builder_cells(*builder),
            );
            assert(own_ties_hold(*builder));
            assert(builder_cells(b0).is_prefix_of(builder_cells(*builder))) by {
                assert forall|x: int| 0 <= x < builder_cells(b0).len() implies builder_cells(
                    b0,
                )[x] == builder_cells(*builder)[x] by {
                    assert(builder_cells(b1)[x] == builder_cells(b0)[x]);
                    assert(builder_cells(b2)[x] == builder_cells(b1)[x]);
                    assert(builder_cells(b3)[x] == builder_cells(b2)[x]);
                    assert(builder_cells(*builder)[x] == builder_cells(b3)[x]);
                }
            }
            assert(builder_equalities(b0).is_prefix_of(builder_equalities(*builder))) by {
                assert forall|x: int| 0 <= x < builder_equalities(b0).len() implies builder_equalities(
                    b0,
                )[x] == builder_equalities(*builder)[x] by {
                    assert(builder_equalities(b1)[x] == builder_equalities(b0)[x]);
                    assert(builder_equalities(b2)[x] == builder_equalities(b1)[x]);
                    assert(builder_equalities(b3)[x] == builder_equalities(b2)[x]);
                    assert(builder_equalities(*builder)[x] == builder_equalities(b3)[x]);
                }
            }
        }
        (left, right, next)
    }

    /// Lays the circuit out against a claimed root: loads the root, the leaf
    /// and the path, walks the path once with one bit gate, two selections
    /// and one sponge run for each level, constrains the last digest equal to
    /// the cell of the claimed root, and exposes that cell as the public
    /// input. Refused when the path does not have exactly as many siblings
    /// and directions as the tree of the configuration has levels, or when
    /// the circuit is built for key generation or for the mock prover and
    /// the backend cannot calculate parameters for the degree bound.
    ///
    /// A root that the path does not lead to, or a direction that is not a
    /// bit, is not an error here: the builder then holds a constraint that
    /// its cells do not meet, and proving or verification fails.
    ///
    /// The builder carries the degree bound and the lookup bits of the
    /// configuration. Its parameters are calculated unless it is built for
    /// the prover, who supplies those of key generation.
    pub fn synthesize(
        &self,
        config: MerkleConfig,
        stage: CircuitBuilderStage,
        root: Option<Scalar>,
    ) -> (r: Result<CircuitBuilder, ConfigError>)
        ensures
            r.is_ok() <==> self.path_elements@.len() == config.depth && self.path_indices@.len()
                == config.depth && (stage == CircuitBuilderStage::Prover || degree_supported(
                config.k,
            )),
            r matches Err(e) ==> e == (if self.path_elements@.len() == config.depth
                && self.path_indices@.len() == config.depth {
                ConfigError::UnsupportedDegree
            } else {
                ConfigError::PathLengthMismatch
            }),
            r matches Ok(b) ==> {
                &&& self.laid_out(witness_or_zero(root), b)
                &&& public_values(b) == seq![seq![witness_or_zero(root)]]
                &&& builder_k(b) == config.k
                &&& builder_lookup_bits(b) == Some(config.lookup_bits as nat)
                &&& builder_params_calculated(b) == (stage != CircuitBuilderStage::Prover)
                &&& builder_records_constraints(b)
            },
    {
        if self.path_elements.len() != config.depth || self.path_indices.len() != config.depth {
            return Err(ConfigError::PathLengthMismatch);
        }
        if stage != CircuitBuilderStage::Prover && !(MINIMUM_DEGREE <= config.k && config.k
            < usize::BITS as usize) {
            return Err(ConfigError::UnsupportedDegree);
        }
        let depth = config.depth;
        let ghost sibs = self.siblings();
        let ghost dirs = self.directions();
        let ghost inputs = input_cells(
            witness_or_zero(root),
            witness_or_zero(self.leaf),
            sibs,
            dirs,
            depth as nat,
        );
        let mut builder = new_builder();
        set_k(&mut builder, config.k);
        set_lookup_bits(&mut builder, config.lookup_bits);

        let (sibling_cells, direction_cells) = self.load_path(&mut builder, root);
        proof {
            lemma_input_cells(
                witness_or_zero(root),
                witness_or_zero(self.leaf),
                sibs,
                dirs,
                depth as nat,
            );
        }

        // Hash up the tree
        let mut digest: usize = 1;
        let ghost mut digests: Seq<nat> = seq![1nat];
        let ghost mut lefts: Seq<nat> = Seq::empty();
        let ghost mut rights: Seq<nat> = Seq::empty();
        let mut i: usize = 0;
        while i < depth
            invariant
                i <= depth,
                inputs.len() == 2 + 2 * depth,
                inputs.is_prefix_of(builder_cells(builder)),
                sibling_cells@.len() == depth,
                direction_cells@.len() == depth,
                forall|j: int| 0 <= j < depth ==> #[trigger] sibling_cells@[j] == 2 + 2 * j,
                forall|j: int| 0 <= j < depth ==> #[trigger] direction_cells@[j] == 3 + 2 * j,
                digest < builder_cells(builder).len(),
                digests.len() == i + 1,
                lefts.len() == i,
                rights.len() == i,
                digests[0] == 1,
                digests[i as int] == digest,
                forall|j: int|
                    0 <= j < i ==> level_tied(
                        builder,
                        j,
                        digests[j],
                        #[trigger] lefts[j],
                        rights[j],
                        digests[j + 1],
                    ),
                own_ties_hold(builder),
                builder_k(builder) == config.k,
                builder_lookup_bits(builder) == Some(config.lookup_bits as nat),
                !builder_params_calculated(builder),
                builder_instances(builder).len() == 0,
                builder_records_constraints(builder),
            decreases depth - i,
        {
            let sibling = sibling_cells[i];
            let direction = direction_cells[i];
            assert(sibling == 2 + 2 * i && direction == 3 + 2 * i);
            let ghost b0 = builder;
            let (left, right, next) = Self::hash_up(&mut builder, sibling, digest, direction);
            proof {
                let old_digests = digests;
                let old_lefts = lefts;
                let old_rights = rights;
                digests = digests.push(next as nat);
                lefts = lefts.push(left as nat);
                rights = rights.push(right as nat);
                assert forall|j: int| 0 <= j < i + 1 implies level_tied(
                    builder,
                    j,
                    digests[j],
                    #[trigger] lefts[j],
                    rights[j],
                    digests[j + 1],
                ) by {
                    if j < i {
                        assert(level_tied(
                            b0,
                            j,
                            old_digests[j],
                            old_lefts[j],
                            old_rights[j],
                            old_digests[j + 1],
                        ));
                    }
                }
                assert(inputs.is_prefix_of(builder_cells(builder))) by {
                    assert forall|x: int| 0 <= x < inputs.len() implies inputs[x] == builder_cells(
                        builder,
                    )[x] by {
                        assert(inputs[x] == builder_cells(b0)[x]);
                    }
                }
            }
            digest = next;
            i = i + 1;
        }

        // The last digest is the claimed root
        constrain_equal(&mut builder, digest, 0);
        assert(builder_equalities(builder).last() == (digest as nat, 0nat));

        // Expose the root
        set_instance_columns(&mut builder, 1);
        assert(builder_instances(builder)[0] =~= Seq::<nat>::empty());
        expose(&mut builder, 0, 0);
        assert(builder_instances(builder)[0] =~= seq![0nat]);
        assert(builder_instances(builder) =~= seq![seq![0nat]]);

        if stage != CircuitBuilderStage::Prover {
            proof {
                lemma2_to64();
                if config.k > 5 {
                    lemma_pow2_strictly_increases(5, config.k as nat);
                }
            }
            calculate_params(&mut builder, MINIMUM_ROWS);
        }
        proof {
            assert(inputs[0] == witness_or_zero(root));
            assert(builder_cells(builder)[0] == inputs[0]);
            assert(public_values(builder) =~= seq![seq![witness_or_zero(root)]]) by {
                assert(public_values(builder)[0] =~= seq![witness_or_zero(root)]);
            }
            assert(builder_equalities(builder).contains((digest as nat, 0nat)));
            assert(chain_tied(builder, depth as nat, digests, lefts, rights));
        }
        Ok(builder)
    }
}

/// Soundness of the Merkle circuit. Take a circuit of the Merkle shape and any
/// assignment of values to its cells, whoever chose it, that meets the
/// constraints the builder recorded. Then every direction of the assignment is
/// a bit, and the public root is the root that the leaf, the siblings and the
/// directions of the assignment lead to: against any other root no witness
/// passes.
pub proof fn lemma_merkle_sound(b: CircuitBuilder, depth: nat, w: Seq<nat>)
    requires
        has_merkle_shape(b, depth),
        witness_satisfies(b, w),
    ensures
        w[0] == climb(w[1], witness_siblings(w, depth), witness_directions(w, depth), depth),
        forall|j: int| 0 <= j < depth ==> #[trigger] witness_directions(w, depth)[j] < 2,
{
    let (digests, lefts, rights) = choose|digests: Seq<nat>, lefts: Seq<nat>, rights: Seq<nat>|
     #[trigger]
        chain_tied(b, depth, digests, lefts, rights) && builder_equalities(b).contains(
            (digests[depth as int], 0nat),
        );
    lemma_chain(b, depth, digests, lefts, rights, w, depth);
    let eqs = builder_equalities(b);
    let i = choose|i: int| 0 <= i < eqs.len() && eqs[i] == (digests[depth as int], 0nat);
    assert(w[eqs[i].0 as int] == w[eqs[i].1 as int]);
    assert forall|j: int| 0 <= j < depth implies #[trigger] witness_directions(w, depth)[j]
        < 2 by {
        assert(level_tied(b, j, digests[j], lefts[j], rights[j], digests[j + 1]));
        assert(builder_bits(b).contains((3 + 2 * j) as nat));
    }
}

/// The constraints that bind the public root to the digest: every equality
/// constraint between the digest cell above the last level of a chain of tied
/// levels and the cell of the claimed root relates two cells of equal value.
pub open spec fn root_binding_holds(b: CircuitBuilder, depth: nat) -> bool {
    let cells = builder_cells(b);
    forall|digests: Seq<nat>, lefts: Seq<nat>, rights: Seq<nat>| #[trigger]
        chain_tied(b, depth, digests, lefts, rights) && builder_equalities(b).contains(
            (digests[depth as int], 0nat),
        ) ==> cells[digests[depth as int] as int] == cells[0]
}

/// The Merkle circuit accepts a path against its root and against no other:
/// the binding of the public root holds of the cells that the builder
/// assigned exactly when the claimed root is the root that the leaf, the
/// siblings and the directions of the path lead to.
pub proof fn lemma_merkle_accepts_iff(circuit: MerkleCircuit, root: nat, b: CircuitBuilder)
    requires
        circuit.path_elements@.len() == circuit.path_indices@.len(),
        circuit.laid_out(root, b),
    ensures
        root_binding_holds(b, circuit.path_elements@.len()) <==> root == circuit.digest(
            circuit.path_elements@.len(),
        ),
{
    let depth = circuit.path_elements@.len();
    let cells = builder_cells(b);
    let leaf = witness_or_zero(circuit.leaf);
    let inputs = input_cells(root, leaf, circuit.siblings(), circuit.directions(), depth);
    lemma_input_cells(root, leaf, circuit.siblings(), circuit.directions(), depth);
    assert(cells[0] == inputs[0] && cells[1] == inputs[1]);
    assert forall|j: int| 0 <= j < depth implies #[trigger] witness_siblings(cells, depth)[j]
        == circuit.siblings()[j] by {
        assert(cells[2 + 2 * j] == inputs[2 + 2 * j]);
    }
    assert forall|j: int| 0 <= j < depth implies #[trigger] witness_directions(cells, depth)[j]
        == circuit.directions()[j] by {
        assert(cells[3 + 2 * j] == inputs[3 + 2 * j]);
    }
    lemma_climb_agrees(
        leaf,
        witness_siblings(cells, depth),
        witness_directions(cells, depth),
        circuit.siblings(),
        circuit.directions(),
        depth,
    );
    assert forall|digests: Seq<nat>, lefts: Seq<nat>, rights: Seq<nat>| #[trigger]
        chain_tied(b, depth, digests, lefts, rights) implies cells[digests[depth as int] as int]
        == circuit.digest(depth) by {
        lemma_chain(b, depth, digests, lefts, rights, cells, depth);
    }
    if root_binding_holds(b, depth) {
        let (digests, lefts, rights) = choose|digests: Seq<nat>, lefts: Seq<nat>, rights: Seq<nat>|
         #[trigger]
            chain_tied(b, depth, digests, lefts, rights) && builder_equalities(b).contains(
                (digests[depth as int], 0nat),
            );
        assert(cells[digests[depth as int] as int] == cells[0]);
    }
}

/// A path with a flipped direction is rejected against the old root. Take a
/// path and the same path with the direction of its last level flipped, both
/// with bits as directions. If the hash tells the two orders of the inputs of
/// that level apart, the two paths lead to different roots, so the circuit of
/// the flipped path, laid out against the root of the path, leaves the binding
/// of the root unmet.
pub proof fn lemma_flipped_direction_rejected(
    circuit: MerkleCircuit,
    flipped: MerkleCircuit,
    b: CircuitBuilder,
)
    requires
        circuit.path_elements@.len() == circuit.path_indices@.len(),
        flipped.path_elements@.len() == flipped.path_indices@.len(),
        circuit.path_elements@.len() == flipped.path_elements@.len(),
        circuit.path_elements@.len() >= 1,
        circuit.valid_up_to(circuit.path_elements@.len() as int),
        flipped.valid_up_to(flipped.path_elements@.len() as int),
        circuit.leaf == flipped.leaf,
        circuit.siblings() == flipped.siblings(),
        forall|j: int|
            0 <= j < circuit.path_elements@.len() - 1 ==> #[trigger] circuit.directions()[j]
                == flipped.directions()[j],
        circuit.directions().last() != flipped.directions().last(),
        circuit.digest((circuit.path_elements@.len() - 1) as nat) < modulus(),
        ({
            let below = circuit.digest((circuit.path_elements@.len() - 1) as nat);
            let sibling = circuit.siblings().last();
            poseidon_hash(below, sibling) != poseidon_hash(sibling, below)
        }),
        flipped.laid_out(circuit.digest(circuit.path_elements@.len()), b),
    ensures
        circuit.digest(circuit.path_elements@.len()) != flipped.digest(
            flipped.path_elements@.len(),
        ),
        !root_binding_holds(b, flipped.path_elements@.len()),
{
    let depth = circuit.path_elements@.len();
    let m = (depth - 1) as nat;
    let leaf = witness_or_zero(circuit.leaf);
    lemma_climb_agrees(
        leaf,
        circuit.siblings(),
        circuit.directions(),
        flipped.siblings(),
        flipped.directions(),
        m,
    );
    let below = circuit.digest(m);
    let sibling = circuit.siblings()[m as int];
    assert(circuit.path_elements@[m as int].is_some());
    assert(flipped.path_elements@[m as int].is_some());
    assert(circuit.directions()[m as int] < 2 && flipped.directions()[m as int] < 2);
    circuit.path_elements@[m as int].unwrap().lemma_value_bound();
    lemma_hash_level_bit(below, sibling);
    lemma_merkle_accepts_iff(flipped, circuit.digest(depth), b);
}

} // verus!
