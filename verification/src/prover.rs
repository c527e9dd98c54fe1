//! The prover: from the answers of the sector trees to the proofs of all
//! partitions, or to the list of sectors that failed.

use vstd::prelude::*;
use crate::challenge::{generate_leaf_challenge, generate_leaf_challenges, leaf_challenge};
use crate::domain::Domain;
use crate::error::{Error, SectorId};
use crate::faults::{strictly_ascending, FaultSet};
use crate::hashing::{hash2, hash2_spec};
use crate::merkle::{MerkleProof, MerkleProofView, TreeHandle, TreeShape};
use crate::params::{chunk_count, count_chunks, PoStShape, PublicParams, SetupParams};
use crate::types::{
    commitments_of, partitions_view, proofs_view, sector_proofs_view, Commitments, FallbackPoSt,
    PrivateInputs, Proof, ProofOrFault, ProofView, PublicInputs, PublicSector, SectorProof,
    SectorProofView,
};
use rayon::iter::{IntoParallelRefIterator, ParallelIterator};

verus! {

/// Whether the sector commitment `comm_r` is the hash of the two commitments
/// it is made of.
pub open spec fn binding_holds(comm_r: Seq<u8>, comm_c: Seq<u8>, comm_r_last: Seq<u8>) -> bool {
    hash2_spec(comm_c, comm_r_last) == Some(comm_r)
}

/// The leaf index that a challenge stands for on this machine.
pub open spec fn leaf_index(challenged_leaf: u64) -> nat {
    (challenged_leaf as usize) as nat
}

/// Whether the answer of a tree to one challenge is taken as a proof: there
/// is an answer, it validates for the challenged leaf, its root is the
/// sector's `comm_r_last`, and the sector commitment is bound to the two
/// commitments.
pub open spec fn accepts(
    shape: TreeShape,
    response: Option<MerkleProofView>,
    challenged_leaf: u64,
    comm_r_last: Seq<u8>,
    binding: bool,
) -> bool {
    match response {
        Some(proof) => proof.validates(shape, leaf_index(challenged_leaf)) && proof.root
            == comm_r_last && binding,
        None => false,
    }
}

/// The answers of the trees as mathematical values: a row for each sector, an
/// entry for each challenge, `None` where the tree failed.
pub open spec fn responses_view(responses: Seq<Vec<Option<MerkleProof>>>) -> Seq<
    Seq<Option<MerkleProofView>>,
> {
    Seq::new(
        responses.len(),
        |s: int|
            Seq::new(
                responses[s]@.len(),
                |i: int|
                    match responses[s]@[i] {
                        Some(proof) => Some(proof@),
                        None => None,
                    },
            ),
    )
}

/// Everything that the outcome of proving depends on.
pub struct Proving {
    pub shape: TreeShape,
    pub params: PublicParams,
    pub randomness: Seq<u8>,
    pub sectors: Seq<PublicSector>,
    pub commitments: Seq<Commitments>,
    pub responses: Seq<Seq<Option<MerkleProofView>>>,
}

impl Proving {
    /// Number of challenges that a proven sector answers: the challenge count
    /// in a window proof; in a winning proof the sector count, since each
    /// challenge fills the slot of a sector.
    pub open spec fn challenges_per_sector(self) -> nat {
        match self.params.shape {
            PoStShape::Window => self.params.challenge_count as nat,
            PoStShape::Winning => self.params.sector_count as nat,
        }
    }

    /// The challenged leaf of sector `s` for its challenge `i`.
    pub open spec fn challenge(self, s: int, i: int) -> u64 {
        leaf_challenge(self.params.leaves(), self.randomness, self.sectors[s].id, i as u64) as u64
    }

    /// The answer of the tree of sector `s` to its challenge `i`; a missing
    /// answer counts as a failure of the tree.
    pub open spec fn response(self, s: int, i: int) -> Option<MerkleProofView> {
        if 0 <= s < self.responses.len() && 0 <= i < self.responses[s].len() {
            self.responses[s][i]
        } else {
            None
        }
    }

    /// Whether the commitment of sector `s` is bound to its two commitments.
    pub open spec fn binds(self, s: int) -> bool {
        binding_holds(
            self.sectors[s].comm_r@,
            self.commitments[s].comm_c,
            self.commitments[s].comm_r_last,
        )
    }

    /// Whether the answer to challenge `i` of sector `s` is taken as a proof.
    pub open spec fn accepted(self, s: int, i: int) -> bool {
        accepts(
            self.shape,
            self.response(s, i),
            self.challenge(s, i),
            self.commitments[s].comm_r_last,
            self.binds(s),
        )
    }

    /// The accepted answers among the first `n` of sector `s`, in the order
    /// of the challenges.
    pub open spec fn accepted_proofs(self, s: int, n: nat) -> Seq<MerkleProofView>
        decreases n,
    {
        if n == 0 {
            Seq::empty()
        } else {
            let rest = self.accepted_proofs(s, (n - 1) as nat);
            if self.accepted(s, n - 1) {
                rest.push(self.response(s, n - 1)->0)
            } else {
                rest
            }
        }
    }

    /// Whether one of the first `n` answers of sector `s` is not accepted.
    pub open spec fn faulty_within(self, s: int, n: nat) -> bool {
        exists|i: int| 0 <= i < n && !self.accepted(s, i)
    }

    /// Whether sector `s` is faulty: one of its answers is not accepted.
    pub open spec fn faulty(self, s: int) -> bool {
        self.faulty_within(s, self.challenges_per_sector())
    }

    /// The ids of the faulty sectors among the first `n` sectors.
    pub open spec fn fault_ids_within(self, n: nat) -> Set<SectorId> {
        Set::new(|id: SectorId| exists|s: int| 0 <= s < n && self.sectors[s].id == id && self.faulty(s))
    }

    /// Number of sectors that are proven: all of them in a window proof, the
    /// first one in a winning proof.
    pub open spec fn proven_sectors(self) -> nat {
        match self.params.shape {
            PoStShape::Window => self.sectors.len(),
            PoStShape::Winning => if self.sectors.len() > 0 {
                1
            } else {
                0
            },
        }
    }

    /// The ids of the faulty sectors.
    pub open spec fn fault_ids(self) -> Set<SectorId> {
        self.fault_ids_within(self.proven_sectors())
    }

    /// Whether no proven sector is faulty.
    pub open spec fn no_faults(self) -> bool {
        forall|s: int| 0 <= s < self.proven_sectors() ==> !self.faulty(s)
    }

    /// The proof of sector `s` in a window proof: its accepted answers with
    /// its two commitments.
    pub open spec fn window_sector_proof(self, s: int) -> SectorProofView {
        SectorProofView {
            inclusion_proofs: self.accepted_proofs(s, self.params.challenge_count as nat),
            comm_c: self.commitments[s].comm_c,
            comm_r_last: self.commitments[s].comm_r_last,
        }
    }

    /// Number of partitions of a window proof: the sectors in chunks of
    /// `sector_count`, the last of which may be short.
    pub open spec fn window_partition_count(self) -> nat {
        chunk_count(self.sectors.len(), self.params.sector_count as nat)
    }

    /// The sector whose proof fills slot `i` of partition `j`: the next one
    /// in order, and past the end the last sector again.
    pub open spec fn window_slot(self, j: int, i: int) -> int {
        let s = j * self.params.sector_count + i;
        if s < self.sectors.len() {
            s
        } else {
            self.sectors.len() - 1
        }
    }

    /// Partition `j` of a window proof: `sector_count` sector proofs.
    pub open spec fn window_partition(self, j: int) -> ProofView {
        ProofView {
            sectors: Seq::new(
                self.params.sector_count as nat,
                |i: int| self.window_sector_proof(self.window_slot(j, i)),
            ),
        }
    }

    /// The sector proofs of a winning proof for the first `n` challenges: one
    /// for each accepted answer of the first sector, holding that answer.
    pub open spec fn winning_sector_proofs(self, n: nat) -> Seq<SectorProofView>
        decreases n,
    {
        if n == 0 {
            Seq::empty()
        } else {
            let rest = self.winning_sector_proofs((n - 1) as nat);
            if self.accepted(0, n - 1) {
                rest.push(
                    SectorProofView {
                        inclusion_proofs: seq![self.response(0, n - 1)->0],
                        comm_c: self.commitments[0].comm_c,
                        comm_r_last: self.commitments[0].comm_r_last,
                    },
                )
            } else {
                rest
            }
        }
    }

    /// The partition proofs where no sector is faulty.
    pub open spec fn partitions(self) -> Seq<ProofView> {
        match self.params.shape {
            PoStShape::Window => Seq::new(
                self.window_partition_count(),
                |j: int| self.window_partition(j),
            ),
            PoStShape::Winning => seq![
                ProofView { sectors: self.winning_sector_proofs(self.params.sector_count as nat) },
            ],
        }
    }

    /// The error for inputs that cannot be proven at all, given the number of
    /// private sectors and of partitions; `None` for inputs that can.
    pub open spec fn input_error(self, private: usize, partitions: usize) -> Option<Error> {
        input_error(self.params, self.sectors.len() as usize, private, partitions)
    }

    /// Whether every proven sector has an answer for each of its challenges.
    pub open spec fn answered(self) -> bool {
        &&& self.responses.len() == self.proven_sectors()
        &&& forall|s: int|
            0 <= s < self.responses.len() ==> (#[trigger] self.responses[s]).len()
                == self.challenges_per_sector()
    }

    /// Whether `result` is what proving gives: the input error where there is
    /// one; else, where a sector is faulty, the ids of the faulty sectors in
    /// ascending order, each once; else the partition proofs.
    pub open spec fn is_outcome(
        self,
        private: usize,
        partitions: usize,
        result: Result<Vec<Proof>, Error>,
    ) -> bool {
        match self.input_error(private, partitions) {
            Some(e) => result == Err::<Vec<Proof>, Error>(e),
            None => match result {
                Ok(proofs) => self.no_faults() && partitions_view(proofs@) == self.partitions(),
                Err(Error::FaultySectors(ids)) => !self.no_faults() && strictly_ascending(ids@)
                    && ids@.to_set() == self.fault_ids(),
                Err(_) => false,
            },
        }
    }
}

/// The error for numbers of public and private sectors and of partitions
/// that cannot be proven at all; `None` for those that can.
pub open spec fn input_error(
    params: PublicParams,
    public: usize,
    private: usize,
    partitions: usize,
) -> Option<Error> {
    if private != public {
        Some(Error::SectorCountMismatch { private, public })
    } else {
        match params.shape {
            PoStShape::Window => if public > partitions * params.sector_count {
                Some(
                    Error::TooManySectors {
                        sectors: public,
                        partitions,
                        sectors_per_partition: params.sector_count,
                    },
                )
            } else {
                None
            },
            PoStShape::Winning => if public != params.sector_count || public == 0 {
                Some(Error::WinningChallengeCount { sectors: public })
            } else if params.challenge_count != 1 {
                Some(Error::WinningShape { challenge_count: params.challenge_count })
            } else {
                None
            },
        }
    }
}

/// What proving depends on, put together from the inputs of a call.
pub open spec fn proving(
    post: FallbackPoSt,
    params: PublicParams,
    randomness: Seq<u8>,
    sectors: Seq<PublicSector>,
    commitments: Seq<Commitments>,
    responses: Seq<Seq<Option<MerkleProofView>>>,
) -> Proving {
    Proving { shape: post.shape, params, randomness, sectors, commitments, responses }
}

/// Verifies that the sector commitment `comm_r` is the hash of `comm_c` and
/// `comm_r_last`.
pub fn commitment_binds(comm_r: &Domain, comm_c: &Domain, comm_r_last: &Domain) -> (binding: bool)
    ensures
        binding == binding_holds(comm_r@, comm_c@, comm_r_last@),
{
    match hash2(comm_c, comm_r_last) {
        Some(hash) => hash.same(comm_r),
        None => false,
    }
}

/// Sorts the answer of a tree to one challenge of sector `sector_id`: an
/// accepted answer is the proof, anything else marks the sector as faulty.
pub fn classify(
    shape: TreeShape,
    response: Option<&MerkleProof>,
    challenged_leaf: u64,
    sector_id: SectorId,
    comm_r_last: &Domain,
    binding: bool,
) -> (sorted: ProofOrFault<MerkleProof>)
    ensures
        match sorted {
            ProofOrFault::Proof(proof) => response is Some && proof@ == response->0@ && accepts(
                shape,
                Some(proof@),
                challenged_leaf,
                comm_r_last@,
                binding,
            ),
            ProofOrFault::Fault(id) => id == sector_id && !accepts(
                shape,
                match response {
                    Some(proof) => Some(proof@),
                    None => None,
                },
                challenged_leaf,
                comm_r_last@,
                binding,
            ),
        },
{
    match response {
        Some(proof) => {
            if proof.validate(shape, #[verifier::truncate] (challenged_leaf as usize))
                && proof.root().same(comm_r_last) && binding {
                ProofOrFault::Proof(proof.duplicate())
            } else {
                ProofOrFault::Fault(sector_id)
            }
        },
        None => ProofOrFault::Fault(sector_id),
    }
}

/// The answer of the tree of sector `s` to its challenge `i`, if there is
/// one.
fn response_at(responses: &Vec<Vec<Option<MerkleProof>>>, s: usize, i: usize) -> (response: Option<
    &MerkleProof,
>)
    ensures
        match response {
            Some(proof) => 0 <= s < responses@.len() && 0 <= i < responses@[s as int]@.len()
                && responses@[s as int]@[i as int] == Some(*proof),
            None => !(0 <= s < responses@.len() && 0 <= i < responses@[s as int]@.len())
                || responses@[s as int]@[i as int] is None,
        },
{
    if s < responses.len() {
        let row = &responses[s];
        if i < row.len() {
            return row[i].as_ref();
        }
    }
    None
}

/// Checks the numbers of sectors and partitions before anything is proven.
pub fn check_inputs(
    pub_params: &PublicParams,
    public: usize,
    private: usize,
    partition_count: usize,
) -> (refusal: Option<Error>)
    ensures
        refusal == input_error(*pub_params, public, private, partition_count),
{
    if private != public {
        return Some(Error::SectorCountMismatch { private, public });
    }
    match pub_params.shape {
        PoStShape::Window => {
            let fits = match partition_count.checked_mul(pub_params.sector_count) {
                Some(room) => public <= room,
                None => true,
            };
            if !fits {
                return Some(
                    Error::TooManySectors {
                        sectors: public,
                        partitions: partition_count,
                        sectors_per_partition: pub_params.sector_count,
                    },
                );
            }
            None
        },
        PoStShape::Winning => {
            if public != pub_params.sector_count || public == 0 {
                return Some(Error::WinningChallengeCount { sectors: public });
            }
            if pub_params.challenge_count != 1 {
                return Some(Error::WinningShape { challenge_count: pub_params.challenge_count });
            }
            None
        },
    }
}

impl FallbackPoSt {
    /// The proof of sector `s` of a window proof, and whether the sector is
    /// faulty.
    fn window_sector<'a, T: TreeHandle>(
        &self,
        pub_params: &PublicParams,
        pub_inputs: &PublicInputs<'a>,
        priv_inputs: &PrivateInputs<'a, T>,
        responses: &Vec<Vec<Option<MerkleProof>>>,
        s: usize,
    ) -> (done: (SectorProof, bool))
        requires
            pub_params.leaves() > 0,
            s < pub_inputs.sectors@.len(),
            priv_inputs.sectors@.len() == pub_inputs.sectors@.len(),
        ensures
            ({
                let pv = proving(
                    *self,
                    *pub_params,
                    pub_inputs.randomness@,
                    pub_inputs.sectors@,
                    commitments_of(priv_inputs.sectors@),
                    responses_view(responses@),
                );
                &&& done.0@ == pv.window_sector_proof(s as int)
                &&& done.1 == pv.faulty_within(s as int, pub_params.challenge_count as nat)
            }),
    {
        let ghost pv = proving(
            *self,
            *pub_params,
            pub_inputs.randomness@,
            pub_inputs.sectors@,
            commitments_of(priv_inputs.sectors@),
            responses_view(responses@),
        );
        let pub_sector = &pub_inputs.sectors[s];
        let priv_sector = &priv_inputs.sectors[s];
        let sector_id = pub_sector.id;
        let binding = commitment_binds(
            &pub_sector.comm_r,
            &priv_sector.comm_c,
            &priv_sector.comm_r_last,
        );
        let mut inclusion_proofs: Vec<MerkleProof> = Vec::new();
        let mut faulty = false;
        let mut challenge_index: usize = 0;
        proof {
            assert(proofs_view(inclusion_proofs@) =~= pv.accepted_proofs(s as int, 0));
        }
        while challenge_index < pub_params.challenge_count
            invariant
                challenge_index <= pub_params.challenge_count,
                pub_params.leaves() > 0,
                s < pub_inputs.sectors@.len(),
                priv_inputs.sectors@.len() == pub_inputs.sectors@.len(),
                pub_sector == pub_inputs.sectors@[s as int],
                priv_sector == priv_inputs.sectors@[s as int],
                sector_id == pub_sector.id,
                binding == pv.binds(s as int),
                pv == proving(
                    *self,
                    *pub_params,
                    pub_inputs.randomness@,
                    pub_inputs.sectors@,
                    commitments_of(priv_inputs.sectors@),
                    responses_view(responses@),
                ),
                proofs_view(inclusion_proofs@) == pv.accepted_proofs(
                    s as int,
                    challenge_index as nat,
                ),
                faulty == pv.faulty_within(s as int, challenge_index as nat),
            decreases pub_params.challenge_count - challenge_index,
        {
            let challenged_leaf = generate_leaf_challenge(
                pub_params,
                pub_inputs.randomness,
                sector_id,
                challenge_index as u64,
            );
            let response = response_at(responses, s, challenge_index);
            let ghost before = inclusion_proofs@;
            proof {
                assert(pv.challenge(s as int, challenge_index as int) == challenged_leaf);
                assert(pv.response(s as int, challenge_index as int) == match response {
                    Some(proof) => Some(proof@),
                    None => None,
                });
            }
            match classify(
                self.shape,
                response,
                challenged_leaf,
                sector_id,
                &priv_sector.comm_r_last,
                binding,
            ) {
                ProofOrFault::Proof(proof) => {
                    inclusion_proofs.push(proof);
                    proof {
                        assert(pv.accepted(s as int, challenge_index as int));
                        assert(proofs_view(inclusion_proofs@) =~= proofs_view(before).push(
                            proof@,
                        ));
                        assert(pv.faulty_within(s as int, (challenge_index + 1) as nat)
                            == pv.faulty_within(s as int, challenge_index as nat)) by {
                            if pv.faulty_within(s as int, (challenge_index + 1) as nat) {
                                let i = choose|i: int|
                                    0 <= i < challenge_index + 1 && !pv.accepted(s as int, i);
                                assert(i < challenge_index);
                            }
                        }
                    }
                },
                ProofOrFault::Fault(_) => {
                    faulty = true;
                    proof {
                        assert(!pv.accepted(s as int, challenge_index as int));
                    }
                },
            }
            challenge_index += 1;
        }
        (
            SectorProof {
                inclusion_proofs,
                comm_c: priv_sector.comm_c,
                comm_r_last: priv_sector.comm_r_last,
            },
            faulty,
        )
    }

    /// The partition proofs of a window proof, or the faulty sectors.
    fn assemble_window<'a, T: TreeHandle>(
        &self,
        pub_params: &PublicParams,
        pub_inputs: &PublicInputs<'a>,
        priv_inputs: &PrivateInputs<'a, T>,
        responses: &Vec<Vec<Option<MerkleProof>>>,
    ) -> (result: Result<Vec<Proof>, Error>)
        requires
            pub_params.leaves() > 0,
            pub_params.shape is Window,
            priv_inputs.sectors@.len() == pub_inputs.sectors@.len(),
            pub_params.sector_count > 0 || pub_inputs.sectors@.len() == 0,
        ensures
            ({
                let pv = proving(
                    *self,
                    *pub_params,
                    pub_inputs.randomness@,
                    pub_inputs.sectors@,
                    commitments_of(priv_inputs.sectors@),
                    responses_view(responses@),
                );
                match result {
                    Ok(proofs) => pv.no_faults() && partitions_view(proofs@) == pv.partitions(),
                    Err(Error::FaultySectors(ids)) => !pv.no_faults() && strictly_ascending(ids@)
                        && ids@.to_set() == pv.fault_ids(),
                    Err(_) => false,
                }
            }),
    {
        let ghost pv = proving(
            *self,
            *pub_params,
            pub_inputs.randomness@,
            pub_inputs.sectors@,
            commitments_of(priv_inputs.sectors@),
            responses_view(responses@),
        );
        let n = pub_inputs.sectors.len();
        let per = pub_params.sector_count;
        let parts = count_chunks(n, per);
        let mut partition_proofs: Vec<Proof> = Vec::new();
        let mut faults = FaultSet::new();
        let ghost mut covered: int = 0;
        let mut j: usize = 0;
        proof {
            assert(faults@ =~= pv.fault_ids_within(0));
            if per > 0 {
                lemma_chunks(n as int, per as int, parts as int, 0);
            }
        }
        while j < parts
            invariant
                j <= parts,
                n == pub_inputs.sectors@.len(),
                per == pub_params.sector_count,
                parts == pv.window_partition_count(),
                per > 0 || parts == 0,
                pub_params.leaves() > 0,
                pub_params.shape is Window,
                priv_inputs.sectors@.len() == pub_inputs.sectors@.len(),
                pv == proving(
                    *self,
                    *pub_params,
                    pub_inputs.randomness@,
                    pub_inputs.sectors@,
                    commitments_of(priv_inputs.sectors@),
                    responses_view(responses@),
                ),
                partition_proofs@.len() == j,
                forall|k: int| 0 <= k < j ==> (#[trigger] partition_proofs@[k])@ == pv.window_partition(k),
                0 <= covered <= n,
                covered == (if j * per < n {
                    j * per
                } else {
                    n as int
                }),
                faults@ == pv.fault_ids_within(covered as nat),
            decreases parts - j,
        {
            proof {
                lemma_chunks(n as int, per as int, parts as int, j as int);
            }
            let start = j * per;
            let len = if n - start < per {
                n - start
            } else {
                per
            };
            let mut proofs: Vec<SectorProof> = Vec::new();
            let mut i: usize = 0;
            while i < len
                invariant
                    i <= len,
                    start + len <= n,
                    start == covered,
                    n == pub_inputs.sectors@.len(),
                    pub_params.leaves() > 0,
                    pub_params.shape is Window,
                    priv_inputs.sectors@.len() == pub_inputs.sectors@.len(),
                    pv == proving(
                        *self,
                        *pub_params,
                        pub_inputs.randomness@,
                        pub_inputs.sectors@,
                        commitments_of(priv_inputs.sectors@),
                        responses_view(responses@),
                    ),
                    proofs@.len() == i,
                    forall|k: int|
                        0 <= k < i ==> (#[trigger] proofs@[k])@ == pv.window_sector_proof(start + k),
                    faults@ == pv.fault_ids_within((start + i) as nat),
                decreases len - i,
            {
                let s = start + i;
                let (sector_proof, faulty) = self.window_sector(
                    pub_params,
                    pub_inputs,
                    priv_inputs,
                    responses,
                    s,
                );
                if faulty {
                    faults.insert(pub_inputs.sectors[s].id);
                }
                proof {
                    pv.lemma_fault_ids_step(s as nat);
                }
                proofs.push(sector_proof);
                i += 1;
            }
            proof {
                covered = start + len;
                assert forall|k: int| 0 <= k < proofs@.len() implies (#[trigger] proofs@[k])@
                    == pv.window_sector_proof(pv.window_slot(j as int, k)) by {
                    assert(pv.window_slot(j as int, k) == start + k);
                }
            }
            while proofs.len() < per
                invariant
                    1 <= len <= proofs@.len() <= per,
                    start == j * per,
                    start + len <= n,
                    len < per ==> start + len == n,
                    n == pv.sectors.len(),
                    per == pv.params.sector_count,
                    forall|k: int|
                        0 <= k < proofs@.len() ==> (#[trigger] proofs@[k])@
                            == pv.window_sector_proof(pv.window_slot(j as int, k)),
                decreases per - proofs.len(),
            {
                let ghost filled = proofs@.len() as int;
                let last = proofs[proofs.len() - 1].duplicate();
                proof {
                    assert(pv.window_slot(j as int, filled) == n - 1);
                    assert(pv.window_slot(j as int, filled - 1) == n - 1);
                }
                proofs.push(last);
            }
            let partition = Proof { sectors: proofs };
            proof {
                assert(partition@.sectors =~= pv.window_partition(j as int).sectors);
                assert((j + 1) * per == j * per + per) by (nonlinear_arith);
            }
            partition_proofs.push(partition);
            j += 1;
        }
        proof {
            if per > 0 {
                lemma_chunks(n as int, per as int, parts as int, parts as int);
            }
            assert(covered == n);
            assert(partitions_view(partition_proofs@) =~= pv.partitions());
            pv.lemma_no_faults();
        }
        if faults.is_empty() {
            Ok(partition_proofs)
        } else {
            Err(Error::FaultySectors(faults.into_sorted()))
        }
    }

    /// The one partition proof of a winning proof, or the faulty sector.
    fn assemble_winning<'a, T: TreeHandle>(
        &self,
        pub_params: &PublicParams,
        pub_inputs: &PublicInputs<'a>,
        priv_inputs: &PrivateInputs<'a, T>,
        responses: &Vec<Vec<Option<MerkleProof>>>,
    ) -> (result: Result<Vec<Proof>, Error>)
        requires
            pub_params.leaves() > 0,
            pub_params.shape is Winning,
            priv_inputs.sectors@.len() == pub_inputs.sectors@.len(),
            pub_inputs.sectors@.len() > 0,
        ensures
            ({
                let pv = proving(
                    *self,
                    *pub_params,
                    pub_inputs.randomness@,
                    pub_inputs.sectors@,
                    commitments_of(priv_inputs.sectors@),
                    responses_view(responses@),
                );
                match result {
                    Ok(proofs) => pv.no_faults() && partitions_view(proofs@) == pv.partitions(),
                    Err(Error::FaultySectors(ids)) => !pv.no_faults() && strictly_ascending(ids@)
                        && ids@.to_set() == pv.fault_ids(),
                    Err(_) => false,
                }
            }),
    {
        let ghost pv = proving(
            *self,
            *pub_params,
            pub_inputs.randomness@,
            pub_inputs.sectors@,
            commitments_of(priv_inputs.sectors@),
            responses_view(responses@),
        );
        let num_challenges = pub_params.sector_count;
        let pub_sector = &pub_inputs.sectors[0];
        let priv_sector = &priv_inputs.sectors[0];
        let sector_id = pub_sector.id;
        let binding = commitment_binds(
            &pub_sector.comm_r,
            &priv_sector.comm_c,
            &priv_sector.comm_r_last,
        );
        let mut proofs: Vec<SectorProof> = Vec::new();
        let mut faults = FaultSet::new();
        let mut challenge_index: usize = 0;
        proof {
            assert(sector_proofs_view(proofs@) =~= pv.winning_sector_proofs(0));
            assert(faults@ =~= Set::<SectorId>::empty());
        }
        while challenge_index < num_challenges
            invariant
                challenge_index <= num_challenges,
                num_challenges == pub_params.sector_count,
                pub_params.leaves() > 0,
                pub_inputs.sectors@.len() > 0,
                priv_inputs.sectors@.len() == pub_inputs.sectors@.len(),
                pub_sector == pub_inputs.sectors@[0],
                priv_sector == priv_inputs.sectors@[0],
                sector_id == pub_sector.id,
                binding == pv.binds(0),
                pv == proving(
                    *self,
                    *pub_params,
                    pub_inputs.randomness@,
                    pub_inputs.sectors@,
                    commitments_of(priv_inputs.sectors@),
                    responses_view(responses@),
                ),
                sector_proofs_view(proofs@) == pv.winning_sector_proofs(challenge_index as nat),
                faults@ == (if pv.faulty_within(0, challenge_index as nat) {
                    Set::<SectorId>::empty().insert(sector_id)
                } else {
                    Set::<SectorId>::empty()
                }),
            decreases num_challenges - challenge_index,
        {
            let challenged_leaf = generate_leaf_challenge(
                pub_params,
                pub_inputs.randomness,
                sector_id,
                challenge_index as u64,
            );
            let response = response_at(responses, 0, challenge_index);
            let ghost before = proofs@;
            proof {
                assert(pv.challenge(0, challenge_index as int) == challenged_leaf);
                assert(pv.response(0, challenge_index as int) == match response {
                    Some(proof) => Some(proof@),
                    None => None,
                });
            }
            match classify(
                self.shape,
                response,
                challenged_leaf,
                sector_id,
                &priv_sector.comm_r_last,
                binding,
            ) {
                ProofOrFault::Proof(proof) => {
                    let mut inclusion_proofs: Vec<MerkleProof> = Vec::new();
                    inclusion_proofs.push(proof);
                    let sector_proof = SectorProof {
                        inclusion_proofs,
                        comm_c: priv_sector.comm_c,
                        comm_r_last: priv_sector.comm_r_last,
                    };
                    proof {
                        assert(sector_proof@.inclusion_proofs =~= seq![proof@]);
                    }
                    proofs.push(sector_proof);
                    proof {
                        assert(pv.accepted(0, challenge_index as int));
                        assert(sector_proofs_view(proofs@) =~= sector_proofs_view(before).push(
                            sector_proof@,
                        ));
                        assert(pv.faulty_within(0, (challenge_index + 1) as nat)
                            == pv.faulty_within(0, challenge_index as nat)) by {
                            if pv.faulty_within(0, (challenge_index + 1) as nat) {
                                let i = choose|i: int|
                                    0 <= i < challenge_index + 1 && !pv.accepted(0, i);
                                assert(i < challenge_index);
                            }
                        }
                    }
                },
                ProofOrFault::Fault(id) => {
                    faults.insert(id);
                    proof {
                        assert(!pv.accepted(0, challenge_index as int));
                        assert(pv.faulty_within(0, (challenge_index + 1) as nat));
                        assert(faults@ =~= Set::<SectorId>::empty().insert(sector_id));
                    }
                },
            }
            challenge_index += 1;
        }
        let partition = Proof { sectors: proofs };
        let mut partition_proofs: Vec<Proof> = Vec::new();
        partition_proofs.push(partition);
        proof {
            assert(partitions_view(partition_proofs@) =~= pv.partitions());
            pv.lemma_no_faults();
            pv.lemma_fault_ids_step(0);
            assert(pv.fault_ids_within(0) =~= Set::<SectorId>::empty());
            assert(faults@ == pv.fault_ids());
        }
        if faults.is_empty() {
            Ok(partition_proofs)
        } else {
            Err(Error::FaultySectors(faults.into_sorted()))
        }
    }

    /// Puts the partition proofs together from the answers of the sector
    /// trees: `responses` holds a row for each proven sector and in it the
    /// answer to each of its challenges, `None` where the tree failed. The
    /// numbers of sectors and partitions are checked first. A sector with an
    /// answer that is not accepted is faulty; where there is one, the result
    /// is the list of the faulty sectors in ascending order. Else a window
    /// proof has a partition for each chunk of `sector_count` sectors, a short
    /// last chunk filled up with copies of its last sector proof, and a
    /// winning proof has one partition with a sector proof for each challenge
    /// of the first sector.
    pub fn assemble_partitions<'a, T: TreeHandle>(
        &self,
        pub_params: &PublicParams,
        pub_inputs: &PublicInputs<'a>,
        priv_inputs: &PrivateInputs<'a, T>,
        responses: &Vec<Vec<Option<MerkleProof>>>,
        partition_count: usize,
    ) -> (result: Result<Vec<Proof>, Error>)
        requires
            pub_params.leaves() > 0,
        ensures
            proving(
                *self,
                *pub_params,
                pub_inputs.randomness@,
                pub_inputs.sectors@,
                commitments_of(priv_inputs.sectors@),
                responses_view(responses@),
            ).is_outcome(priv_inputs.sectors@.len() as usize, partition_count, result),
            pub_params.shape is Window && result is Ok ==> forall|j: int|
                0 <= j < result->Ok_0@.len() ==> (#[trigger] result->Ok_0@[j]).sectors@.len()
                    == pub_params.sector_count,
    {
        let result = self.assemble_checked(
            pub_params,
            pub_inputs,
            priv_inputs,
            responses,
            partition_count,
        );
        proof {
            if pub_params.shape is Window && result is Ok {
                let pv = proving(
                    *self,
                    *pub_params,
                    pub_inputs.randomness@,
                    pub_inputs.sectors@,
                    commitments_of(priv_inputs.sectors@),
                    responses_view(responses@),
                );
                let proofs = result->Ok_0;
                assert forall|j: int| 0 <= j < proofs@.len() implies (#[trigger] proofs@[j]).sectors@.len()
                    == pub_params.sector_count by {
                    assert(pv.params.shape is Window);
                    assert(partitions_view(proofs@) == pv.partitions());
                    assert(partitions_view(proofs@).len() == proofs@.len());
                    assert(partitions_view(proofs@)[j] == proofs@[j]@);
                    assert(pv.partitions() == Seq::new(
                        pv.window_partition_count(),
                        |k: int| pv.window_partition(k),
                    ));
                    assert(pv.partitions()[j] == pv.window_partition(j));
                    assert(proofs@[j]@.sectors.len() == proofs@[j].sectors@.len());
                }
            }
        }
        result
    }

    /// Checks the numbers of sectors and partitions, then puts the partition
    /// proofs together.
    fn assemble_checked<'a, T: TreeHandle>(
        &self,
        pub_params: &PublicParams,
        pub_inputs: &PublicInputs<'a>,
        priv_inputs: &PrivateInputs<'a, T>,
        responses: &Vec<Vec<Option<MerkleProof>>>,
        partition_count: usize,
    ) -> (result: Result<Vec<Proof>, Error>)
        requires
            pub_params.leaves() > 0,
        ensures
            proving(
                *self,
                *pub_params,
                pub_inputs.randomness@,
                pub_inputs.sectors@,
                commitments_of(priv_inputs.sectors@),
                responses_view(responses@),
            ).is_outcome(priv_inputs.sectors@.len() as usize, partition_count, result),
    {
        match check_inputs(
            pub_params,
            pub_inputs.sectors.len(),
            priv_inputs.sectors.len(),
            partition_count,
        ) {
            Some(refusal) => Err(refusal),
            None => match pub_params.shape {
                PoStShape::Window => {
                    assert(pub_params.sector_count > 0 || pub_inputs.sectors@.len() == 0) by (nonlinear_arith)
                        requires
                            pub_inputs.sectors@.len() <= partition_count * pub_params.sector_count,
                    ;
                    self.assemble_window(pub_params, pub_inputs, priv_inputs, responses)
                },
                PoStShape::Winning => self.assemble_winning(
                    pub_params,
                    pub_inputs,
                    priv_inputs,
                    responses,
                ),
            },
        }
    }

    /// Asks the tree of each proven sector for an inclusion proof for each of
    /// its challenges.
    fn fetch_responses<'a, T: TreeHandle>(
        &self,
        pub_params: &PublicParams,
        pub_inputs: &PublicInputs<'a>,
        priv_inputs: &PrivateInputs<'a, T>,
    ) -> (responses: Vec<Vec<Option<MerkleProof>>>)
        requires
            pub_params.leaves() > 0,
            priv_inputs.sectors@.len() == pub_inputs.sectors@.len(),
        ensures
            proving(
                *self,
                *pub_params,
                pub_inputs.randomness@,
                pub_inputs.sectors@,
                commitments_of(priv_inputs.sectors@),
                responses_view(responses@),
            ).answered(),
    {
        let n = pub_inputs.sectors.len();
        let (proven, num_challenges) = match pub_params.shape {
            PoStShape::Window => (n, pub_params.challenge_count),
            PoStShape::Winning => (if n > 0 {
                1
            } else {
                0
            }, pub_params.sector_count),
        };
        let mut responses: Vec<Vec<Option<MerkleProof>>> = Vec::new();
        let mut s: usize = 0;
        while s < proven
            invariant
                s <= proven <= n,
                n == pub_inputs.sectors@.len(),
                priv_inputs.sectors@.len() == pub_inputs.sectors@.len(),
                pub_params.leaves() > 0,
                responses@.len() == s,
                forall|k: int| 0 <= k < s ==> (#[trigger] responses@[k])@.len() == num_challenges,
            decreases proven - s,
        {
            let tree = priv_inputs.sectors[s].tree;
            let sector_id = pub_inputs.sectors[s].id;
            let tree_leafs = tree.leafs();
            let rows = rows_to_discard(tree_leafs, self.shape.base_arity());
            let challenges = generate_leaf_challenges(
                pub_params,
                pub_inputs.randomness,
                sector_id,
                num_challenges,
            );
            let row = fetch_proofs(tree, &challenges, rows);
            responses.push(row);
            s += 1;
        }
        responses
    }

    /// Proves all partitions in one pass. The numbers of sectors and
    /// partitions are checked first. Then the tree of each proven sector is
    /// asked for an inclusion proof for each of its challenges, and the
    /// result is what `assemble_partitions` makes of the answers, whatever
    /// the trees answered.
    pub fn prove_all_partitions<'a, T: TreeHandle>(
        &self,
        pub_params: &PublicParams,
        pub_inputs: &PublicInputs<'a>,
        priv_inputs: &PrivateInputs<'a, T>,
        partition_count: usize,
    ) -> (result: Result<Vec<Proof>, Error>)
        requires
            pub_params.leaves() > 0,
        ensures
            match input_error(
                *pub_params,
                pub_inputs.sectors@.len() as usize,
                priv_inputs.sectors@.len() as usize,
                partition_count,
            ) {
                Some(refusal) => result == Err::<Vec<Proof>, Error>(refusal),
                None => exists|responses: Seq<Seq<Option<MerkleProofView>>>|
                    {
                        let pv = #[trigger] proving(
                            *self,
                            *pub_params,
                            pub_inputs.randomness@,
                            pub_inputs.sectors@,
                            commitments_of(priv_inputs.sectors@),
                            responses,
                        );
                        pv.answered() && pv.is_outcome(
                            priv_inputs.sectors@.len() as usize,
                            partition_count,
                            result,
                        )
                    },
            },
            pub_params.shape is Window && result is Ok ==> forall|j: int|
                0 <= j < result->Ok_0@.len() ==> (#[trigger] result->Ok_0@[j]).sectors@.len()
                    == pub_params.sector_count,
    {
        match check_inputs(
            pub_params,
            pub_inputs.sectors.len(),
            priv_inputs.sectors.len(),
            partition_count,
        ) {
            Some(refusal) => {
                return Err(refusal);
            },
            None => {},
        }
        let responses = self.fetch_responses(pub_params, pub_inputs, priv_inputs);
        let result = self.assemble_partitions(
            pub_params,
            pub_inputs,
            priv_inputs,
            &responses,
            partition_count,
        );
        proof {
            let pv = proving(
                *self,
                *pub_params,
                pub_inputs.randomness@,
                pub_inputs.sectors@,
                commitments_of(priv_inputs.sectors@),
                responses_view(responses@),
            );
            assert(pv.answered() && pv.is_outcome(
                priv_inputs.sectors@.len() as usize,
                partition_count,
                result,
            ));
        }
        result
    }

    /// The public parameters for the given setup parameters.
    pub fn setup(sp: &SetupParams) -> (params: Result<PublicParams, Error>)
        ensures
            params == Ok::<PublicParams, Error>(
                PublicParams {
                    sector_size: sp.sector_size,
                    challenge_count: sp.challenge_count,
                    sector_count: sp.sector_count,
                    shape: sp.shape,
                },
            ),
    {
        Ok(
            PublicParams {
                sector_size: sp.sector_size,
                challenge_count: sp.challenge_count,
                sector_count: sp.sector_count,
                shape: sp.shape,
            },
        )
    }

    /// Proves the sectors in a single partition. Partition proofs share a
    /// setup, so this is `prove_all_partitions` with one partition, of which
    /// the one proof is handed out. The partition index of the public inputs
    /// must be absent or 0, and a window proof needs a sector to prove.
    pub fn prove<'a, T: TreeHandle>(
        &self,
        pub_params: &PublicParams,
        pub_inputs: &PublicInputs<'a>,
        priv_inputs: &PrivateInputs<'a, T>,
    ) -> (result: Result<Proof, Error>)
        requires
            pub_params.leaves() > 0,
            pub_inputs.k is None || pub_inputs.k == Some(0usize),
            pub_params.shape is Window ==> pub_inputs.sectors@.len() > 0,
        ensures
            match input_error(
                *pub_params,
                pub_inputs.sectors@.len() as usize,
                priv_inputs.sectors@.len() as usize,
                1,
            ) {
                Some(refusal) => result == Err::<Proof, Error>(refusal),
                None => exists|responses: Seq<Seq<Option<MerkleProofView>>>|
                    {
                        let pv = #[trigger] proving(
                            *self,
                            *pub_params,
                            pub_inputs.randomness@,
                            pub_inputs.sectors@,
                            commitments_of(priv_inputs.sectors@),
                            responses,
                        );
                        pv.answered() && match result {
                            Ok(proof) => pv.no_faults() && pv.partitions().len() == 1 && proof@
                                == pv.partitions()[0],
                            Err(Error::FaultySectors(ids)) => !pv.no_faults()
                                && strictly_ascending(ids@) && ids@.to_set() == pv.fault_ids(),
                            Err(_) => false,
                        }
                    },
            },
    {
        let k = match pub_inputs.k {
            None => 0,
            Some(k) => k,
        };
        let num_sectors = pub_inputs.sectors.len();
        match self.prove_all_partitions(pub_params, pub_inputs, priv_inputs, 1) {
            Ok(proofs) => {
                proof {
                    let responses = choose|responses: Seq<Seq<Option<MerkleProofView>>>|
                        {
                            let pv = #[trigger] proving(
                                *self,
                                *pub_params,
                                pub_inputs.randomness@,
                                pub_inputs.sectors@,
                                commitments_of(priv_inputs.sectors@),
                                responses,
                            );
                            pv.answered() && pv.is_outcome(
                                priv_inputs.sectors@.len() as usize,
                                1,
                                Ok::<Vec<Proof>, Error>(proofs),
                            )
                        };
                    let pv = proving(
                        *self,
                        *pub_params,
                        pub_inputs.randomness@,
                        pub_inputs.sectors@,
                        commitments_of(priv_inputs.sectors@),
                        responses,
                    );
                    assert(partitions_view(proofs@) == pv.partitions());
                    assert(pv.sectors.len() == num_sectors);
                    pv.lemma_single_partition();
                    assert(proofs@.len() == partitions_view(proofs@).len());
                    assert(partitions_view(proofs@)[0] == proofs@[0]@);
                }
                Ok(proofs[k].duplicate())
            },
            Err(e) => Err(e),
        }
    }
}

/// The answer of a tree to challenge `i` of a single sector; a missing answer
/// counts as a failure of the tree.
pub open spec fn answer_at(answers: Seq<Option<MerkleProofView>>, i: int) -> Option<
    MerkleProofView,
> {
    if 0 <= i < answers.len() {
        answers[i]
    } else {
        None
    }
}

/// The answers of a tree to the challenges of one sector as mathematical
/// values.
pub open spec fn answers_view(answers: Seq<Option<MerkleProof>>) -> Seq<Option<MerkleProofView>> {
    Seq::new(
        answers.len(),
        |i: int|
            match answers[i] {
                Some(proof) => Some(proof@),
                None => None,
            },
    )
}

/// Why the single-sector prover fails on the first `n` challenges: the first
/// challenge, in order, that the tree did not answer or whose answer does not
/// validate against the challenged leaf and `comm_r_last`; `None` where every
/// answer holds.
pub open spec fn vanilla_failure(
    shape: TreeShape,
    sector: SectorId,
    comm_r_last: Seq<u8>,
    challenges: Seq<u64>,
    answers: Seq<Option<MerkleProofView>>,
    n: nat,
) -> Option<Error>
    decreases n,
{
    if n == 0 {
        None
    } else {
        match vanilla_failure(shape, sector, comm_r_last, challenges, answers, (n - 1) as nat) {
            Some(e) => Some(e),
            None => {
                let answer = answer_at(answers, n - 1);
                if answer is None {
                    Some(Error::TreeFailure { sector })
                } else if !accepts(shape, answer, challenges[n - 1], comm_r_last, true) {
                    Some(Error::InvalidVanillaProof { sector })
                } else {
                    None
                }
            },
        }
    }
}

/// Whether `result` is what the single-sector prover gives for these answers:
/// the first failure where there is one, else one partition proof with one
/// sector proof that holds the answers in the order of the challenges.
pub open spec fn is_vanilla_outcome(
    shape: TreeShape,
    sector: SectorId,
    comm_c: Seq<u8>,
    comm_r_last: Seq<u8>,
    challenges: Seq<u64>,
    answers: Seq<Option<MerkleProofView>>,
    result: Result<Proof, Error>,
) -> bool {
    match vanilla_failure(shape, sector, comm_r_last, challenges, answers, challenges.len()) {
        Some(e) => result == Err::<Proof, Error>(e),
        None => result is Ok && result->Ok_0@ == ProofView {
            sectors: seq![
                SectorProofView {
                    inclusion_proofs: Seq::new(challenges.len(), |i: int| answer_at(answers, i)->0),
                    comm_c,
                    comm_r_last,
                },
            ],
        },
    }
}

/// Puts the proof of a single sector together from the answers of its tree
/// to the given challenges; `answers` holds the answer to each challenge,
/// `None` where the tree failed. Every answer has to validate against its
/// challenged leaf and to have the root `comm_r_last`; the first one, in the
/// order of the challenges, that is missing or does not hold fails the call.
pub fn assemble_vanilla_proof(
    shape: TreeShape,
    sector_id: SectorId,
    comm_c: Domain,
    comm_r_last: Domain,
    challenges: &[u64],
    answers: &Vec<Option<MerkleProof>>,
) -> (result: Result<Proof, Error>)
    ensures
        is_vanilla_outcome(
            shape,
            sector_id,
            comm_c@,
            comm_r_last@,
            challenges@,
            answers_view(answers@),
            result,
        ),
{
    let ghost given = answers_view(answers@);
    let mut inclusion_proofs: Vec<MerkleProof> = Vec::new();
    let mut i: usize = 0;
    while i < challenges.len()
        invariant
            i <= challenges.len(),
            given == answers_view(answers@),
            vanilla_failure(shape, sector_id, comm_r_last@, challenges@, given, i as nat) is None,
            inclusion_proofs@.len() == i,
            forall|k: int|
                0 <= k < i ==> Some((#[trigger] inclusion_proofs@[k])@) == answer_at(given, k),
        decreases challenges.len() - i,
    {
        let answer: Option<&MerkleProof> = if i < answers.len() {
            answers[i].as_ref()
        } else {
            None
        };
        proof {
            assert(answer_at(given, i as int) == match answer {
                Some(proof) => Some(proof@),
                None => None,
            });
        }
        if answer.is_none() {
            proof {
                lemma_vanilla_failure_stays(
                    shape,
                    sector_id,
                    comm_r_last@,
                    challenges@,
                    given,
                    (i + 1) as nat,
                    challenges@.len(),
                );
            }
            return Err(Error::TreeFailure { sector: sector_id });
        }
        match classify(shape, answer, challenges[i], sector_id, &comm_r_last, true) {
            ProofOrFault::Proof(proof) => {
                inclusion_proofs.push(proof);
            },
            ProofOrFault::Fault(_) => {
                proof {
                    lemma_vanilla_failure_stays(
                        shape,
                        sector_id,
                        comm_r_last@,
                        challenges@,
                        given,
                        (i + 1) as nat,
                        challenges@.len(),
                    );
                }
                return Err(Error::InvalidVanillaProof { sector: sector_id });
            },
        }
        i += 1;
    }
    let sector_proof = SectorProof { inclusion_proofs, comm_c, comm_r_last };
    let mut sectors: Vec<SectorProof> = Vec::new();
    sectors.push(sector_proof);
    let partition = Proof { sectors };
    proof {
        assert(sector_proof@.inclusion_proofs =~= Seq::new(
            challenges@.len(),
            |i: int| answer_at(given, i)->0,
        ));
        assert(partition@.sectors =~= seq![sector_proof@]);
    }
    Ok(partition)
}

/// A failure among the first `n` challenges is the failure among any more.
pub proof fn lemma_vanilla_failure_stays(
    shape: TreeShape,
    sector: SectorId,
    comm_r_last: Seq<u8>,
    challenges: Seq<u64>,
    answers: Seq<Option<MerkleProofView>>,
    n: nat,
    m: nat,
)
    requires
        n <= m,
        vanilla_failure(shape, sector, comm_r_last, challenges, answers, n) is Some,
    ensures
        vanilla_failure(shape, sector, comm_r_last, challenges, answers, m) == vanilla_failure(
            shape,
            sector,
            comm_r_last,
            challenges,
            answers,
            n,
        ),
    decreases m,
{
    if n < m {
        lemma_vanilla_failure_stays(
            shape,
            sector,
            comm_r_last,
            challenges,
            answers,
            n,
            (m - 1) as nat,
        );
    }
}

/// Generates a single vanilla proof, given the private inputs and sector
/// challenges. The private inputs must hold exactly one sector. Its tree is
/// asked for an inclusion proof for each challenge, and the result is what
/// `assemble_vanilla_proof` makes of the answers, whatever the tree answered.
pub fn vanilla_proof<'a, T: TreeHandle>(
    shape: TreeShape,
    sector_id: SectorId,
    priv_inputs: &PrivateInputs<'a, T>,
    challenges: &[u64],
) -> (result: Result<Proof, Error>)
    ensures
        priv_inputs.sectors@.len() != 1 ==> result == Err::<Proof, Error>(
            Error::NotSingleSector { sectors: priv_inputs.sectors@.len() as usize },
        ),
        priv_inputs.sectors@.len() == 1 ==> exists|answers: Seq<Option<MerkleProofView>>|
            answers.len() == challenges@.len() && #[trigger] is_vanilla_outcome(
                shape,
                sector_id,
                priv_inputs.sectors@[0].comm_c@,
                priv_inputs.sectors@[0].comm_r_last@,
                challenges@,
                answers,
                result,
            ),
{
    if priv_inputs.sectors.len() != 1 {
        return Err(Error::NotSingleSector { sectors: priv_inputs.sectors.len() });
    }
    let priv_sector = &priv_inputs.sectors[0];
    let comm_c = priv_sector.comm_c;
    let comm_r_last = priv_sector.comm_r_last;
    let tree = priv_sector.tree;
    let tree_leafs = tree.leafs();
    let rows = rows_to_discard(tree_leafs, shape.base_arity());
    let mut asked: Vec<u64> = Vec::new();
    let mut i: usize = 0;
    while i < challenges.len()
        invariant
            i <= challenges.len(),
            asked@ == challenges@.take(i as int),
        decreases challenges.len() - i,
    {
        asked.push(challenges[i]);
        proof {
            assert(challenges@.take(i + 1) =~= challenges@.take(i as int).push(challenges@[i as int]));
        }
        i += 1;
    }
    let answers = fetch_proofs(tree, &asked, rows);
    let result = assemble_vanilla_proof(
        shape,
        sector_id,
        comm_c,
        comm_r_last,
        challenges,
        &answers,
    );
    proof {
        assert(challenges@.take(challenges@.len() as int) =~= challenges@);
        assert(answers_view(answers@).len() == challenges@.len());
        assert(is_vanilla_outcome(
            shape,
            sector_id,
            priv_inputs.sectors@[0].comm_c@,
            priv_inputs.sectors@[0].comm_r_last@,
            challenges@,
            answers_view(answers@),
            result,
        ));
    }
    result
}

/// `storage_proofs_core::util::default_rows_to_discard`: how many rows above
/// the leaves a tree of that many leaves and that arity does not keep. The
/// number depends on the settings of the process, so nothing is claimed of
/// it. With arity 2 the function doubles the number of leaves, which the
/// precondition keeps inside the machine word.
#[verifier::external_body]
fn rows_to_discard(leafs: usize, arity: usize) -> (rows: usize)
    requires
        arity != 2 || leafs * 2 <= usize::MAX,
{
    storage_proofs_core::util::default_rows_to_discard(leafs, arity)
}

/// `rayon`'s parallel `map` and `collect` over the challenges: each challenge
/// is answered by the tree, and the answers come back in the order of the
/// challenges, one for each.
#[verifier::external_body]
fn fetch_proofs<T: TreeHandle>(tree: &T, challenges: &Vec<u64>, rows: usize) -> (answers: Vec<
    Option<MerkleProof>,
>)
    ensures
        answers@.len() == challenges@.len(),
{
    challenges.par_iter().map(|leaf| tree.gen_cached_proof(*leaf as usize, Some(rows))).collect()
}

/// Where `n` sectors go into `parts` chunks of `per`, chunk `j` starts before
/// the end, and the chunks together reach it.
pub proof fn lemma_chunks(n: int, per: int, parts: int, j: int)
    requires
        n >= 0,
        per > 0,
        parts == (if n % per == 0 {
            n / per
        } else {
            n / per + 1
        }),
        0 <= j <= parts,
    ensures
        j < parts ==> j * per < n,
        j == parts ==> j * per >= n,
        j == 0 ==> j * per == 0,
{
    assert(n == per * (n / per) + n % per) by (nonlinear_arith)
        requires
            per > 0,
    ;
    assert(0 <= n % per < per) by (nonlinear_arith)
        requires
            per > 0,
    ;
    if j < parts {
        assert(j * per <= (parts - 1) * per) by (nonlinear_arith)
            requires
                j <= parts - 1,
                per > 0,
        ;
        assert((parts - 1) * per == parts * per - per) by (nonlinear_arith);
        assert(parts * per == per * parts) by (nonlinear_arith);
        assert(per * (n / per + 1) == per * (n / per) + per) by (nonlinear_arith);
    } else {
        assert(parts * per == per * parts) by (nonlinear_arith);
        assert(per * (n / per + 1) == per * (n / per) + per) by (nonlinear_arith);
    }
}

impl Proving {
    /// The faulty ids among one sector more: the id of that sector joins the
    /// set where the sector is faulty.
    pub proof fn lemma_fault_ids_step(self, s: nat)
        ensures
            self.fault_ids_within(s + 1) == (if self.faulty(s as int) {
                self.fault_ids_within(s).insert(self.sectors[s as int].id)
            } else {
                self.fault_ids_within(s)
            }),
    {
        let more = self.fault_ids_within(s + 1);
        let less = self.fault_ids_within(s);
        let id = self.sectors[s as int].id;
        if self.faulty(s as int) {
            assert forall|x: SectorId| more.contains(x) <==> less.insert(id).contains(x) by {
                if more.contains(x) {
                    let k = choose|k: int|
                        0 <= k < s + 1 && self.sectors[k].id == x && self.faulty(k);
                    if k < s {
                        assert(less.contains(x));
                    }
                }
                if less.contains(x) {
                    let k = choose|k: int| 0 <= k < s && self.sectors[k].id == x && self.faulty(k);
                    assert(0 <= k < s + 1);
                }
                if x == id {
                    assert(0 <= s < s + 1 && self.sectors[s as int].id == x);
                }
            }
            assert(more =~= less.insert(id));
        } else {
            assert forall|x: SectorId| more.contains(x) <==> less.contains(x) by {
                if more.contains(x) {
                    let k = choose|k: int|
                        0 <= k < s + 1 && self.sectors[k].id == x && self.faulty(k);
                    assert(k < s);
                }
                if less.contains(x) {
                    let k = choose|k: int| 0 <= k < s && self.sectors[k].id == x && self.faulty(k);
                    assert(0 <= k < s + 1);
                }
            }
            assert(more =~= less);
        }
    }

    /// Sectors that fit into one partition, and are not none in a window
    /// proof, give exactly one partition proof.
    pub proof fn lemma_single_partition(self)
        requires
            self.input_error(self.sectors.len() as usize, 1) is None,
            self.sectors.len() <= usize::MAX,
            self.params.shape is Window ==> self.sectors.len() > 0,
        ensures
            self.partitions().len() == 1,
    {
        if self.params.shape is Window {
            let n = self.sectors.len() as int;
            let per = self.params.sector_count as int;
            assert(per > 0 && n <= per) by (nonlinear_arith)
                requires
                    n > 0,
                    n <= 1 * per,
            ;
            if n == per {
                assert(n % per == 0 && n / per == 1) by (nonlinear_arith)
                    requires
                        n == per,
                        per > 0,
                ;
            } else {
                assert(n % per != 0 && n / per == 0) by (nonlinear_arith)
                    requires
                        0 < n < per,
                ;
            }
        }
    }

    /// No sector is faulty exactly where the set of faulty ids is empty.
    pub proof fn lemma_no_faults(self)
        ensures
            self.no_faults() <==> self.fault_ids() == Set::<SectorId>::empty(),
    {
        let ids = self.fault_ids();
        if self.no_faults() {
            assert forall|x: SectorId| !ids.contains(x) by {
                if ids.contains(x) {
                    let k = choose|k: int|
                        0 <= k < self.proven_sectors() && self.sectors[k].id == x && self.faulty(k);
                    assert(!self.faulty(k));
                }
            }
            assert(ids =~= Set::<SectorId>::empty());
        } else {
            let s = choose|s: int| 0 <= s < self.proven_sectors() && self.faulty(s);
            assert(ids.contains(self.sectors[s].id));
        }
    }
}

} // verus!
