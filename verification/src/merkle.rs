//! Merkle inclusion proofs as plain data, the shapes of the trees they come
//! from, and what a tree has to offer to the prover.

use vstd::prelude::*;
use crate::domain::{is_scalar, Domain};
use filecoin_hashers::poseidon::{PoseidonDomain, PoseidonHasher};
use generic_array::typenum::{U0, U2, U4, U8};
use storage_proofs_core::merkle::MerkleProofTrait;

verus! {

/// How a sector tree is layered: base trees of arity 8, optionally joined by
/// a sub-tree layer, and those optionally joined by a top layer.
#[derive(Debug, Clone, Copy, PartialEq, Eq, Structural)]
pub enum TreeShape {
    /// One base tree of arity 8.
    Base8,
    /// Four base trees under a sub-tree layer.
    Sub8x4,
    /// Eight base trees under a sub-tree layer.
    Sub8x8,
    /// Two sub-trees of four base trees each under a top layer.
    Top8x4x2,
    /// Two sub-trees of eight base trees each under a top layer.
    Top8x8x2,
}

impl TreeShape {
    /// Arity of the base trees.
    pub open spec fn base(self) -> nat {
        8
    }

    /// Arity of the sub-tree layer, 0 where there is none.
    pub open spec fn sub(self) -> nat {
        match self {
            TreeShape::Base8 => 0,
            TreeShape::Sub8x4 => 4,
            TreeShape::Sub8x8 => 8,
            TreeShape::Top8x4x2 => 4,
            TreeShape::Top8x8x2 => 8,
        }
    }

    /// Arity of the top layer, 0 where there is none.
    pub open spec fn top(self) -> nat {
        match self {
            TreeShape::Base8 => 0,
            TreeShape::Sub8x4 => 0,
            TreeShape::Sub8x8 => 0,
            TreeShape::Top8x4x2 => 2,
            TreeShape::Top8x8x2 => 2,
        }
    }

    /// Number of layers above the base trees.
    pub open spec fn upper_layers(self) -> nat {
        match self {
            TreeShape::Base8 => 0,
            TreeShape::Sub8x4 => 1,
            TreeShape::Sub8x8 => 1,
            TreeShape::Top8x4x2 => 2,
            TreeShape::Top8x8x2 => 2,
        }
    }

    /// Number of base trees in a sector tree.
    pub open spec fn base_trees(self) -> nat {
        match self {
            TreeShape::Base8 => 1,
            TreeShape::Sub8x4 => 4,
            TreeShape::Sub8x8 => 8,
            TreeShape::Top8x4x2 => 8,
            TreeShape::Top8x8x2 => 16,
        }
    }

    /// Arity of the base trees.
    pub fn base_arity(&self) -> (arity: usize)
        ensures
            arity == self.base(),
    {
        8
    }

    /// Number of base trees in a sector tree.
    pub fn base_tree_count(&self) -> (count: usize)
        ensures
            count == self.base_trees(),
    {
        match self {
            TreeShape::Base8 => 1,
            TreeShape::Sub8x4 => 4,
            TreeShape::Sub8x8 => 8,
            TreeShape::Top8x4x2 => 8,
            TreeShape::Top8x8x2 => 16,
        }
    }

    /// Number of layers above the base trees.
    pub fn upper_layer_count(&self) -> (count: usize)
        ensures
            count == self.upper_layers(),
    {
        match self {
            TreeShape::Base8 => 0,
            TreeShape::Sub8x4 => 1,
            TreeShape::Sub8x8 => 1,
            TreeShape::Top8x4x2 => 2,
            TreeShape::Top8x8x2 => 2,
        }
    }
}

/// One step of an inclusion path: the siblings of a node, and the position of
/// the node among them.
#[derive(Debug, Clone, PartialEq, Eq)]
pub struct PathElement {
    pub hashes: Vec<Domain>,
    pub index: usize,
}

/// A path element as a mathematical value.
pub struct PathElementView {
    pub hashes: Seq<Seq<u8>>,
    pub index: nat,
}

impl View for PathElement {
    type V = PathElementView;

    open spec fn view(&self) -> PathElementView {
        PathElementView {
            hashes: self.hashes@.map_values(|h: Domain| h@),
            index: self.index as nat,
        }
    }
}

/// A Merkle inclusion proof: a leaf, the root it is claimed to lie under, and
/// the path from the leaf up to the root.
#[derive(Debug, Clone, PartialEq, Eq)]
pub struct MerkleProof {
    pub root: Domain,
    pub leaf: Domain,
    pub path: Vec<PathElement>,
}

/// An inclusion proof as a mathematical value.
pub struct MerkleProofView {
    pub root: Seq<u8>,
    pub leaf: Seq<u8>,
    pub path: Seq<PathElementView>,
}

impl View for MerkleProof {
    type V = MerkleProofView;

    open spec fn view(&self) -> MerkleProofView {
        MerkleProofView {
            root: self.root@,
            leaf: self.leaf@,
            path: self.path@.map_values(|e: PathElement| e@),
        }
    }
}

/// The largest leaf index that a path of `len` elements is allowed to stand
/// for, with room to spare: 16 times 8 to the power `len`.
pub open spec fn index_room(len: nat) -> nat
    decreases len,
{
    if len == 0 {
        16
    } else {
        8 * index_room((len - 1) as nat)
    }
}

impl PathElementView {
    /// A path element that can be hashed: with its node it makes 2, 4, 8 or
    /// 16 nodes, the node has a place among them, and every sibling is a
    /// canonical scalar.
    pub open spec fn well_formed(self) -> bool {
        &&& (self.hashes.len() == 1 || self.hashes.len() == 3 || self.hashes.len() == 7
            || self.hashes.len() == 15)
        &&& self.index <= self.hashes.len()
        &&& forall|i: int| 0 <= i < self.hashes.len() ==> is_scalar(#[trigger] self.hashes[i])
    }
}

impl MerkleProofView {
    /// A proof whose root can be recomputed for a tree of shape `shape`: the
    /// leaf is a canonical scalar, the root has 32 bytes, the path has an
    /// element for each upper layer, every element can be hashed, and the
    /// leaf index that the path stands for fits the machine word.
    pub open spec fn well_formed(self, shape: TreeShape) -> bool {
        &&& is_scalar(self.leaf)
        &&& self.root.len() == 32
        &&& self.path.len() >= shape.upper_layers()
        &&& index_room(self.path.len()) <= usize::MAX
        &&& forall|i: int| 0 <= i < self.path.len() ==> (#[trigger] self.path[i]).well_formed()
    }

    /// Whether the proof holds for the leaf at index `node` of a tree of
    /// shape `shape`.
    pub open spec fn validates(self, shape: TreeShape, node: nat) -> bool {
        self.well_formed(shape) && merkle_proof_validates(
            shape.base(),
            shape.sub(),
            shape.top(),
            self,
            node,
        )
    }
}

/// Whether recomputing the root from the leaf along the path gives the root
/// of the proof, and the indices along the path spell `node`, in a tree of
/// the given base, sub-tree and top arities.
pub uninterp spec fn merkle_proof_validates(
    base: nat,
    sub: nat,
    top: nat,
    proof: MerkleProofView,
    node: nat,
) -> bool;

/// The number of path elements of an inclusion proof in a tree of the given
/// arities over `leaves` leaves.
pub uninterp spec fn compound_path_length(base: nat, sub: nat, top: nat, leaves: nat) -> nat;

/// `MerkleProof::from_parts` and `MerkleProofTrait::validate` of
/// storage_proofs_core, for the Poseidon hasher and arities (8, 0, 0). The
/// result is a function of the proof's data and of `node` alone. The call
/// panics on a path element that cannot be hashed, on a leaf that is no
/// scalar and on an index past the machine word; a well-formed proof has
/// none of these.
#[verifier::external_body]
fn validate_base8(proof: &MerkleProof, node: usize) -> (ok: bool)
    requires
        proof@.well_formed(TreeShape::Base8),
    ensures
        ok == merkle_proof_validates(8, 0, 0, proof@, node as nat),
{
    let path = proof.path.iter().map(
        |e| (e.hashes.iter().map(|h| PoseidonDomain::from(h.bytes)).collect(), e.index),
    ).collect();
    storage_proofs_core::merkle::MerkleProof::<PoseidonHasher, U8, U0, U0>::from_parts(
        PoseidonDomain::from(proof.leaf.bytes),
        PoseidonDomain::from(proof.root.bytes),
        path,
    ).validate(node)
}

/// As `validate_base8`, for arities (8, 4, 0). `from_parts` takes the last
/// path element for the sub-tree layer and panics on an empty path, which a
/// well-formed proof of this shape does not have.
#[verifier::external_body]
fn validate_sub8x4(proof: &MerkleProof, node: usize) -> (ok: bool)
    requires
        proof@.well_formed(TreeShape::Sub8x4),
    ensures
        ok == merkle_proof_validates(8, 4, 0, proof@, node as nat),
{
    let path = proof.path.iter().map(
        |e| (e.hashes.iter().map(|h| PoseidonDomain::from(h.bytes)).collect(), e.index),
    ).collect();
    storage_proofs_core::merkle::MerkleProof::<PoseidonHasher, U8, U4, U0>::from_parts(
        PoseidonDomain::from(proof.leaf.bytes),
        PoseidonDomain::from(proof.root.bytes),
        path,
    ).validate(node)
}

/// As `validate_sub8x4`, for arities (8, 8, 0).
#[verifier::external_body]
fn validate_sub8x8(proof: &MerkleProof, node: usize) -> (ok: bool)
    requires
        proof@.well_formed(TreeShape::Sub8x8),
    ensures
        ok == merkle_proof_validates(8, 8, 0, proof@, node as nat),
{
    let path = proof.path.iter().map(
        |e| (e.hashes.iter().map(|h| PoseidonDomain::from(h.bytes)).collect(), e.index),
    ).collect();
    storage_proofs_core::merkle::MerkleProof::<PoseidonHasher, U8, U8, U0>::from_parts(
        PoseidonDomain::from(proof.leaf.bytes),
        PoseidonDomain::from(proof.root.bytes),
        path,
    ).validate(node)
}

/// As `validate_base8`, for arities (8, 4, 2). `from_parts` takes the last
/// two path elements for the top and sub-tree layers and panics on a shorter
/// path, which a well-formed proof of this shape does not have.
#[verifier::external_body]
fn validate_top8x4x2(proof: &MerkleProof, node: usize) -> (ok: bool)
    requires
        proof@.well_formed(TreeShape::Top8x4x2),
    ensures
        ok == merkle_proof_validates(8, 4, 2, proof@, node as nat),
{
    let path = proof.path.iter().map(
        |e| (e.hashes.iter().map(|h| PoseidonDomain::from(h.bytes)).collect(), e.index),
    ).collect();
    storage_proofs_core::merkle::MerkleProof::<PoseidonHasher, U8, U4, U2>::from_parts(
        PoseidonDomain::from(proof.leaf.bytes),
        PoseidonDomain::from(proof.root.bytes),
        path,
    ).validate(node)
}

/// As `validate_top8x4x2`, for arities (8, 8, 2).
#[verifier::external_body]
fn validate_top8x8x2(proof: &MerkleProof, node: usize) -> (ok: bool)
    requires
        proof@.well_formed(TreeShape::Top8x8x2),
    ensures
        ok == merkle_proof_validates(8, 8, 2, proof@, node as nat),
{
    let path = proof.path.iter().map(
        |e| (e.hashes.iter().map(|h| PoseidonDomain::from(h.bytes)).collect(), e.index),
    ).collect();
    storage_proofs_core::merkle::MerkleProof::<PoseidonHasher, U8, U8, U2>::from_parts(
        PoseidonDomain::from(proof.leaf.bytes),
        PoseidonDomain::from(proof.root.bytes),
        path,
    ).validate(node)
}

/// `storage_proofs_core::merkle::compound_path_length` for arities (8, 0, 0),
/// to which `MerkleProofTrait::expected_len` forwards: a function of the
/// number of leaves alone, which the crate computes from the logarithm of the
/// leaves of a base tree. It underflows where no leaf is left for a base
/// tree, which the precondition excludes.
#[verifier::external_body]
fn path_length_base8(leaves: usize) -> (len: usize)
    requires
        leaves >= 1,
    ensures
        len as nat == compound_path_length(8, 0, 0, leaves as nat),
{
    storage_proofs_core::merkle::compound_path_length::<U8, U0, U0>(leaves)
}

/// As `path_length_base8`, for arities (8, 4, 0).
#[verifier::external_body]
fn path_length_sub8x4(leaves: usize) -> (len: usize)
    requires
        leaves >= 4,
    ensures
        len as nat == compound_path_length(8, 4, 0, leaves as nat),
{
    storage_proofs_core::merkle::compound_path_length::<U8, U4, U0>(leaves)
}

/// As `path_length_base8`, for arities (8, 8, 0).
#[verifier::external_body]
fn path_length_sub8x8(leaves: usize) -> (len: usize)
    requires
        leaves >= 8,
    ensures
        len as nat == compound_path_length(8, 8, 0, leaves as nat),
{
    storage_proofs_core::merkle::compound_path_length::<U8, U8, U0>(leaves)
}

/// As `path_length_base8`, for arities (8, 4, 2).
#[verifier::external_body]
fn path_length_top8x4x2(leaves: usize) -> (len: usize)
    requires
        leaves >= 8,
    ensures
        len as nat == compound_path_length(8, 4, 2, leaves as nat),
{
    storage_proofs_core::merkle::compound_path_length::<U8, U4, U2>(leaves)
}

/// As `path_length_base8`, for arities (8, 8, 2).
#[verifier::external_body]
fn path_length_top8x8x2(leaves: usize) -> (len: usize)
    requires
        leaves >= 16,
    ensures
        len as nat == compound_path_length(8, 8, 2, leaves as nat),
{
    storage_proofs_core::merkle::compound_path_length::<U8, U8, U2>(leaves)
}

/// The number of path elements that a proof must have in a tree of shape
/// `shape` over `leaves` leaves; none where the leaves do not fill one leaf
/// of each base tree.
pub open spec fn expected_path_len(shape: TreeShape, leaves: nat) -> Option<nat> {
    if leaves >= shape.base_trees() {
        Some(compound_path_length(shape.base(), shape.sub(), shape.top(), leaves))
    } else {
        None
    }
}

impl PathElement {
    /// Whether the element can be hashed.
    pub fn is_well_formed(&self) -> (ok: bool)
        ensures
            ok == self@.well_formed(),
    {
        let n = self.hashes.len();
        if !(n == 1 || n == 3 || n == 7 || n == 15) {
            return false;
        }
        if self.index > n {
            return false;
        }
        let mut i: usize = 0;
        while i < n
            invariant
                i <= n,
                n == self.hashes@.len(),
                forall|j: int| 0 <= j < i ==> is_scalar(#[trigger] self@.hashes[j]),
            decreases n - i,
        {
            if !self.hashes[i].is_field_element() {
                assert(!is_scalar(self@.hashes[i as int]));
                return false;
            }
            i += 1;
        }
        true
    }

    /// A copy of the element.
    pub fn duplicate(&self) -> (copy: PathElement)
        ensures
            copy@ == self@,
    {
        let mut hashes: Vec<Domain> = Vec::new();
        let mut i: usize = 0;
        while i < self.hashes.len()
            invariant
                i <= self.hashes.len(),
                hashes@ == self.hashes@.take(i as int),
            decreases self.hashes.len() - i,
        {
            hashes.push(self.hashes[i]);
            assert(self.hashes@.take(i + 1) =~= self.hashes@.take(i as int).push(
                self.hashes@[i as int],
            ));
            i += 1;
        }
        assert(self.hashes@.take(self.hashes@.len() as int) =~= self.hashes@);
        PathElement { hashes, index: self.index }
    }
}

impl MerkleProof {
    /// The root that the proof claims.
    pub fn root(&self) -> (root: Domain)
        ensures
            root@ == self@.root,
    {
        self.root
    }

    /// The leaf that the proof opens.
    pub fn leaf(&self) -> (leaf: Domain)
        ensures
            leaf@ == self@.leaf,
    {
        self.leaf
    }

    /// The path from the leaf to the root, as pairs of siblings and index.
    pub fn path(&self) -> (path: Vec<(Vec<Domain>, usize)>)
        ensures
            path@.len() == self@.path.len(),
            forall|i: int|
                0 <= i < path@.len() ==> {
                    &&& (#[trigger] path@[i]).0@.map_values(|h: Domain| h@) == self@.path[i].hashes
                    &&& path@[i].1 as nat == self@.path[i].index
                },
    {
        let mut path: Vec<(Vec<Domain>, usize)> = Vec::new();
        let mut i: usize = 0;
        while i < self.path.len()
            invariant
                i <= self.path.len(),
                path@.len() == i,
                forall|j: int|
                    0 <= j < i ==> {
                        &&& (#[trigger] path@[j]).0@.map_values(|h: Domain| h@)
                            == self@.path[j].hashes
                        &&& path@[j].1 as nat == self@.path[j].index
                    },
            decreases self.path.len() - i,
        {
            let element = self.path[i].duplicate();
            path.push((element.hashes, element.index));
            i += 1;
        }
        path
    }

    /// Number of elements of the path.
    pub fn path_len(&self) -> (len: usize)
        ensures
            len == self@.path.len(),
    {
        self.path.len()
    }

    /// Whether the root of the proof can be recomputed for a tree of shape
    /// `shape`.
    pub fn is_well_formed(&self, shape: TreeShape) -> (ok: bool)
        ensures
            ok == self@.well_formed(shape),
    {
        if !self.leaf.is_field_element() {
            return false;
        }
        let n = self.path.len();
        if n < shape.upper_layer_count() {
            return false;
        }
        let mut room: usize = 16;
        let mut i: usize = 0;
        while i < n
            invariant
                i <= n,
                n == self.path@.len(),
                room == index_room(i as nat),
                forall|j: int| 0 <= j < i ==> (#[trigger] self@.path[j]).well_formed(),
            decreases n - i,
        {
            if room > usize::MAX / 8 {
                proof {
                    lemma_index_room_grows((i + 1) as nat, n as nat);
                }
                return false;
            }
            room = room * 8;
            if !self.path[i].is_well_formed() {
                assert(!self@.path[i as int].well_formed());
                return false;
            }
            i += 1;
        }
        true
    }

    /// Validates the proof and that it corresponds to the leaf at index
    /// `node` of a tree of shape `shape`.
    pub fn validate(&self, shape: TreeShape, node: usize) -> (ok: bool)
        ensures
            ok == self@.validates(shape, node as nat),
    {
        if !self.is_well_formed(shape) {
            return false;
        }
        match shape {
            TreeShape::Base8 => validate_base8(self, node),
            TreeShape::Sub8x4 => validate_sub8x4(self, node),
            TreeShape::Sub8x8 => validate_sub8x8(self, node),
            TreeShape::Top8x4x2 => validate_top8x4x2(self, node),
            TreeShape::Top8x8x2 => validate_top8x8x2(self, node),
        }
    }

    /// A copy of the proof.
    pub fn duplicate(&self) -> (copy: MerkleProof)
        ensures
            copy@ == self@,
    {
        let mut path: Vec<PathElement> = Vec::new();
        let mut i: usize = 0;
        while i < self.path.len()
            invariant
                i <= self.path.len(),
                path@.len() == i,
                forall|j: int| 0 <= j < i ==> (#[trigger] path@[j])@ == self.path@[j]@,
            decreases self.path.len() - i,
        {
            path.push(self.path[i].duplicate());
            i += 1;
        }
        let copy = MerkleProof { root: self.root, leaf: self.leaf, path };
        assert(copy@.path =~= self@.path);
        copy
    }
}

/// Calculates the expected length of the full path, given the shape of the
/// tree and the number of leaves in it.
pub fn expected_len(shape: TreeShape, leaves: usize) -> (len: Option<usize>)
    ensures
        match len {
            Some(n) => expected_path_len(shape, leaves as nat) == Some(n as nat),
            None => expected_path_len(shape, leaves as nat) is None,
        },
{
    if leaves < shape.base_tree_count() {
        return None;
    }
    Some(
        match shape {
            TreeShape::Base8 => path_length_base8(leaves),
            TreeShape::Sub8x4 => path_length_sub8x4(leaves),
            TreeShape::Sub8x8 => path_length_sub8x8(leaves),
            TreeShape::Top8x4x2 => path_length_top8x4x2(leaves),
            TreeShape::Top8x8x2 => path_length_top8x8x2(leaves),
        },
    )
}

/// The room for indices grows with the length of the path.
pub proof fn lemma_index_room_grows(a: nat, b: nat)
    requires
        a <= b,
    ensures
        index_room(a) <= index_room(b),
    decreases b,
{
    if a < b {
        lemma_index_room_grows(a, (b - 1) as nat);
    }
}

/// What the prover needs of the Merkle tree of a sealed sector. The tree may
/// read from storage and fail; nothing is assumed of what it returns.
pub trait TreeHandle: Sync {
    /// Number of leaves of the tree.
    fn leafs(&self) -> usize;

    /// An inclusion proof for the leaf at `leaf_index`, for which the tree may
    /// recompute the `rows_to_discard` rows above the leaves that it does not
    /// keep.
    fn gen_cached_proof(&self, leaf_index: usize, rows_to_discard: Option<usize>) -> Option<
        MerkleProof,
    >;
}

} // verus!
