//! What prover and verifier exchange: public and private inputs, and the
//! proofs of sectors and partitions.

use vstd::prelude::*;
use crate::domain::Domain;
use crate::error::SectorId;
use crate::merkle::{MerkleProof, MerkleProofView, TreeHandle, TreeShape};

verus! {

/// What everybody knows of a sector: its id and its commitment.
#[derive(Debug, Clone, Copy, PartialEq, Eq)]
pub struct PublicSector {
    pub id: SectorId,
    pub comm_r: Domain,
}

/// The public side of a proof: the randomness it answers, the prover, and
/// the sectors to prove.
#[derive(Debug, Clone)]
pub struct PublicInputs<'a> {
    pub randomness: Domain,
    pub prover_id: Domain,
    pub sectors: &'a [PublicSector],
    /// Partition index
    pub k: Option<usize>,
}

/// What only the prover has of a sector: its tree and the two commitments
/// that the sector commitment is made of.
#[derive(Debug)]
pub struct PrivateSector<'a, T: TreeHandle> {
    pub tree: &'a T,
    pub comm_c: Domain,
    pub comm_r_last: Domain,
}

/// The private side of a proof: one entry for each public sector.
#[derive(Debug)]
pub struct PrivateInputs<'a, T: TreeHandle> {
    pub sectors: &'a [PrivateSector<'a, T>],
}

/// The two commitments of a sector as mathematical values.
pub struct Commitments {
    pub comm_c: Seq<u8>,
    pub comm_r_last: Seq<u8>,
}

impl<'a, T: TreeHandle> PrivateSector<'a, T> {
    /// The commitments of the sector.
    pub open spec fn commitments(&self) -> Commitments {
        Commitments { comm_c: self.comm_c@, comm_r_last: self.comm_r_last@ }
    }
}

/// The commitments of private sectors, in their order.
pub open spec fn commitments_of<'a, T: TreeHandle>(sectors: Seq<PrivateSector<'a, T>>) -> Seq<
    Commitments,
> {
    Seq::new(sectors.len(), |s: int| sectors[s].commitments())
}

/// The proof of one sector: an inclusion proof for each challenge, and the
/// two commitments that bind them to the sector.
#[derive(Debug, Clone, PartialEq, Eq)]
pub struct SectorProof {
    pub inclusion_proofs: Vec<MerkleProof>,
    pub comm_c: Domain,
    pub comm_r_last: Domain,
}

/// A sector proof as a mathematical value.
pub struct SectorProofView {
    pub inclusion_proofs: Seq<MerkleProofView>,
    pub comm_c: Seq<u8>,
    pub comm_r_last: Seq<u8>,
}

/// The inclusion proofs of a vector as mathematical values.
pub open spec fn proofs_view(proofs: Seq<MerkleProof>) -> Seq<MerkleProofView> {
    proofs.map_values(|p: MerkleProof| p@)
}

impl View for SectorProof {
    type V = SectorProofView;

    open spec fn view(&self) -> SectorProofView {
        SectorProofView {
            inclusion_proofs: proofs_view(self.inclusion_proofs@),
            comm_c: self.comm_c@,
            comm_r_last: self.comm_r_last@,
        }
    }
}

/// The proof of one partition: a sector proof in each of its slots.
#[derive(Debug, Clone, PartialEq, Eq)]
pub struct Proof {
    pub sectors: Vec<SectorProof>,
}

/// A partition proof as a mathematical value.
pub struct ProofView {
    pub sectors: Seq<SectorProofView>,
}

/// The sector proofs of a vector as mathematical values.
pub open spec fn sector_proofs_view(proofs: Seq<SectorProof>) -> Seq<SectorProofView> {
    proofs.map_values(|p: SectorProof| p@)
}

impl View for Proof {
    type V = ProofView;

    open spec fn view(&self) -> ProofView {
        ProofView { sectors: sector_proofs_view(self.sectors@) }
    }
}

/// The partition proofs of a vector as mathematical values.
pub open spec fn partitions_view(proofs: Seq<Proof>) -> Seq<ProofView> {
    proofs.map_values(|p: Proof| p@)
}

/// Either a proof, or the sector for which there is none.
#[derive(Debug, Clone, PartialEq, Eq)]
pub enum ProofOrFault<T> {
    Proof(T),
    Fault(SectorId),
}

/// The fallback proof-of-spacetime over sector trees of one shape.
#[derive(Debug, Clone, Copy)]
pub struct FallbackPoSt {
    pub shape: TreeShape,
}

impl SectorProof {
    /// The leaves that the inclusion proofs open, in their order.
    pub fn leafs(&self) -> (leafs: Vec<Domain>)
        ensures
            leafs@.len() == self@.inclusion_proofs.len(),
            forall|i: int| 0 <= i < leafs@.len() ==> (#[trigger] leafs@[i])@ == self@.inclusion_proofs[i].leaf,
    {
        let mut leafs: Vec<Domain> = Vec::new();
        let mut i: usize = 0;
        while i < self.inclusion_proofs.len()
            invariant
                i <= self.inclusion_proofs.len(),
                leafs@.len() == i,
                forall|j: int|
                    0 <= j < i ==> (#[trigger] leafs@[j])@ == self@.inclusion_proofs[j].leaf,
            decreases self.inclusion_proofs.len() - i,
        {
            leafs.push(self.inclusion_proofs[i].leaf());
            i += 1;
        }
        leafs
    }

    /// The root of the first inclusion proof, which stands for the root of
    /// the sector's tree.
    pub fn comm_r_last(&self) -> (root: Domain)
        requires
            self@.inclusion_proofs.len() > 0,
        ensures
            root@ == self@.inclusion_proofs[0].root,
    {
        self.inclusion_proofs[0].root()
    }

    /// The roots that the inclusion proofs claim, in their order.
    pub fn commitments(&self) -> (roots: Vec<Domain>)
        ensures
            roots@.len() == self@.inclusion_proofs.len(),
            forall|i: int| 0 <= i < roots@.len() ==> (#[trigger] roots@[i])@ == self@.inclusion_proofs[i].root,
    {
        let mut roots: Vec<Domain> = Vec::new();
        let mut i: usize = 0;
        while i < self.inclusion_proofs.len()
            invariant
                i <= self.inclusion_proofs.len(),
                roots@.len() == i,
                forall|j: int|
                    0 <= j < i ==> (#[trigger] roots@[j])@ == self@.inclusion_proofs[j].root,
            decreases self.inclusion_proofs.len() - i,
        {
            roots.push(self.inclusion_proofs[i].root());
            i += 1;
        }
        roots
    }

    /// The paths of the inclusion proofs, in their order.
    pub fn paths(&self) -> (paths: Vec<Vec<(Vec<Domain>, usize)>>)
        ensures
            paths@.len() == self@.inclusion_proofs.len(),
            forall|i: int, k: int|
                0 <= i < paths@.len() && 0 <= k < self@.inclusion_proofs[i].path.len() ==> {
                    &&& paths@[i]@.len() == self@.inclusion_proofs[i].path.len()
                    &&& (#[trigger] paths@[i]@[k]).0@.map_values(|h: Domain| h@)
                        == self@.inclusion_proofs[i].path[k].hashes
                    &&& paths@[i]@[k].1 as nat == self@.inclusion_proofs[i].path[k].index
                },
            forall|i: int|
                0 <= i < paths@.len() ==> (#[trigger] paths@[i])@.len()
                    == self@.inclusion_proofs[i].path.len(),
    {
        let mut paths: Vec<Vec<(Vec<Domain>, usize)>> = Vec::new();
        let mut i: usize = 0;
        while i < self.inclusion_proofs.len()
            invariant
                i <= self.inclusion_proofs.len(),
                paths@.len() == i,
                forall|j: int, k: int|
                    0 <= j < i && 0 <= k < self@.inclusion_proofs[j].path.len() ==> {
                        &&& paths@[j]@.len() == self@.inclusion_proofs[j].path.len()
                        &&& (#[trigger] paths@[j]@[k]).0@.map_values(|h: Domain| h@)
                            == self@.inclusion_proofs[j].path[k].hashes
                        &&& paths@[j]@[k].1 as nat == self@.inclusion_proofs[j].path[k].index
                    },
                forall|j: int|
                    0 <= j < i ==> (#[trigger] paths@[j])@.len()
                        == self@.inclusion_proofs[j].path.len(),
            decreases self.inclusion_proofs.len() - i,
        {
            paths.push(self.inclusion_proofs[i].path());
            i += 1;
        }
        paths
    }

    /// The paths of the inclusion proofs with every sibling and every index
    /// present, as a circuit takes them.
    pub fn as_options(&self) -> (paths: Vec<Vec<(Vec<Option<Domain>>, Option<usize>)>>)
        ensures
            paths@.len() == self@.inclusion_proofs.len(),
            forall|i: int|
                0 <= i < paths@.len() ==> (#[trigger] paths@[i])@.len()
                    == self@.inclusion_proofs[i].path.len(),
            forall|i: int, k: int|
                0 <= i < paths@.len() && 0 <= k < self@.inclusion_proofs[i].path.len() ==> {
                    &&& (#[trigger] paths@[i]@[k]).1 == Some(self.inclusion_proofs@[i].path@[k].index)
                    &&& paths@[i]@[k].0@ == self.inclusion_proofs@[i].path@[k].hashes@.map_values(
                        |h: Domain| Some(h),
                    )
                },
    {
        let mut paths: Vec<Vec<(Vec<Option<Domain>>, Option<usize>)>> = Vec::new();
        let mut i: usize = 0;
        while i < self.inclusion_proofs.len()
            invariant
                i <= self.inclusion_proofs.len(),
                paths@.len() == i,
                forall|j: int|
                    0 <= j < i ==> (#[trigger] paths@[j])@.len()
                        == self@.inclusion_proofs[j].path.len(),
                forall|j: int, k: int|
                    0 <= j < i && 0 <= k < self@.inclusion_proofs[j].path.len() ==> {
                        &&& (#[trigger] paths@[j]@[k]).1 == Some(
                            self.inclusion_proofs@[j].path@[k].index,
                        )
                        &&& paths@[j]@[k].0@
                            == self.inclusion_proofs@[j].path@[k].hashes@.map_values(
                            |h: Domain| Some(h),
                        )
                    },
            decreases self.inclusion_proofs.len() - i,
        {
            let proof = &self.inclusion_proofs[i];
            let mut path: Vec<(Vec<Option<Domain>>, Option<usize>)> = Vec::new();
            let mut k: usize = 0;
            while k < proof.path.len()
                invariant
                    k <= proof.path.len(),
                    path@.len() == k,
                    forall|m: int|
                        0 <= m < k ==> {
                            &&& (#[trigger] path@[m]).1 == Some(proof.path@[m].index)
                            &&& path@[m].0@ == proof.path@[m].hashes@.map_values(
                                |h: Domain| Some(h),
                            )
                        },
                decreases proof.path.len() - k,
            {
                let element = &proof.path[k];
                let mut hashes: Vec<Option<Domain>> = Vec::new();
                let mut m: usize = 0;
                while m < element.hashes.len()
                    invariant
                        m <= element.hashes.len(),
                        hashes@.len() == m,
                        forall|q: int| 0 <= q < m ==> hashes@[q] == Some(element.hashes@[q]),
                    decreases element.hashes.len() - m,
                {
                    hashes.push(Some(element.hashes[m]));
                    m += 1;
                }
                assert(hashes@ =~= element.hashes@.map_values(|h: Domain| Some(h)));
                path.push((hashes, Some(element.index)));
                k += 1;
            }
            paths.push(path);
            i += 1;
        }
        paths
    }

    /// Returns a read-only reference.
    pub fn inclusion_proofs(&self) -> (proofs: &Vec<MerkleProof>)
        ensures
            proofs == &self.inclusion_proofs,
    {
        &self.inclusion_proofs
    }

    /// A copy of the sector proof.
    pub fn duplicate(&self) -> (copy: SectorProof)
        ensures
            copy@ == self@,
    {
        let mut inclusion_proofs: Vec<MerkleProof> = Vec::new();
        let mut i: usize = 0;
        while i < self.inclusion_proofs.len()
            invariant
                i <= self.inclusion_proofs.len(),
                inclusion_proofs@.len() == i,
                forall|j: int|
                    0 <= j < i ==> (#[trigger] inclusion_proofs@[j])@ == self.inclusion_proofs@[j]@,
            decreases self.inclusion_proofs.len() - i,
        {
            inclusion_proofs.push(self.inclusion_proofs[i].duplicate());
            i += 1;
        }
        let copy = SectorProof {
            inclusion_proofs,
            comm_c: self.comm_c,
            comm_r_last: self.comm_r_last,
        };
        assert(copy@.inclusion_proofs =~= self@.inclusion_proofs);
        copy
    }
}

impl Proof {
    /// A copy of the partition proof.
    pub fn duplicate(&self) -> (copy: Proof)
        ensures
            copy@ == self@,
    {
        let mut sectors: Vec<SectorProof> = Vec::new();
        let mut i: usize = 0;
        while i < self.sectors.len()
            invariant
                i <= self.sectors.len(),
                sectors@.len() == i,
                forall|j: int| 0 <= j < i ==> (#[trigger] sectors@[j])@ == self.sectors@[j]@,
            decreases self.sectors.len() - i,
        {
            sectors.push(self.sectors[i].duplicate());
            i += 1;
        }
        let copy = Proof { sectors };
        assert(copy@.sectors =~= self@.sectors);
        copy
    }
}

} // verus!
