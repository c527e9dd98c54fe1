//! The verifier: derives the challenges again and checks the partition proofs
//! against the public inputs.

use vstd::prelude::*;
use crate::challenge::{generate_leaf_challenge, leaf_challenge};
use crate::error::Error;
use crate::merkle::{expected_len, expected_path_len, TreeShape};
use crate::domain::Domain;
use crate::params::{chunk_count, count_chunks, ChallengeRequirements, PoStShape, PublicParams};
use crate::prover::{binding_holds, commitment_binds, leaf_index};
use crate::types::{partitions_view, FallbackPoSt, Proof, ProofView, PublicInputs, PublicSector};

verus! {

/// What a check says: go on, the proof does not hold, or the inputs are
/// malformed.
pub enum Verdict {
    Pass,
    Reject,
    Fail(Error),
}

/// Everything that the outcome of verifying depends on.
pub struct Verifying {
    pub shape: TreeShape,
    pub params: PublicParams,
    pub randomness: Seq<u8>,
    pub sectors: Seq<PublicSector>,
    pub proofs: Seq<ProofView>,
}

impl Verifying {
    /// Number of leaves that a path has to span, as the machine counts them.
    pub open spec fn leaves(self) -> nat {
        ((self.params.sector_size as usize) / 32) as nat
    }

    /// The public sector that slot `i` of partition `j` is checked against.
    pub open spec fn sector(self, j: int, i: int) -> PublicSector {
        self.sectors[j * self.params.sector_count + i]
    }

    /// Number of public sectors that partition `j` is checked against.
    pub open spec fn chunk_len(self, j: int) -> int {
        let rest = self.sectors.len() - j * self.params.sector_count;
        if rest < self.params.sector_count {
            rest
        } else {
            self.params.sector_count as int
        }
    }

    /// The root that every inclusion proof in slot `i` of partition `j` has
    /// to show: the root of the first of them.
    pub open spec fn comm_r_last(self, j: int, i: int) -> Seq<u8> {
        self.proofs[j].sectors[i].inclusion_proofs[0].root
    }

    /// What the check of inclusion proof `n` in slot `i` of partition `j`
    /// says. In a window proof the proof answers challenge `n` of its sector.
    /// In a winning proof it answers the challenge of its slot, and its
    /// position counted over all partitions, slots and proofs must be that of
    /// its slot. The root must be that of the first proof of the slot, the
    /// path must have the length that the sector size asks for, and the proof
    /// must validate for the challenged leaf.
    pub open spec fn inclusion_verdict(self, j: int, i: int, n: int) -> Verdict {
        let proof = self.proofs[j].sectors[i].inclusion_proofs[n];
        let legacy = (j * self.params.sector_count + i) * self.params.challenge_count + n;
        if self.params.shape is Winning && legacy != i {
            Verdict::Fail(Error::WinningChallengeAssumption)
        } else {
            let index = if self.params.shape is Winning {
                i
            } else {
                n
            };
            let challenged_leaf = leaf_challenge(
                self.params.leaves(),
                self.randomness,
                self.sector(j, i).id,
                index as u64,
            ) as u64;
            if proof.root != self.comm_r_last(j, i) {
                Verdict::Reject
            } else if expected_path_len(self.shape, self.leaves()) != Some(proof.path.len()) {
                Verdict::Reject
            } else if !proof.validates(self.shape, leaf_index(challenged_leaf)) {
                Verdict::Reject
            } else {
                Verdict::Pass
            }
        }
    }

    /// What the checks of the inclusion proofs from `from` on in slot `i` of
    /// partition `j` say: the first that does not pass decides.
    pub open spec fn inclusions_verdict(self, j: int, i: int, from: int) -> Verdict
        decreases self.proofs[j].sectors[i].inclusion_proofs.len() - from,
    {
        if from < 0 || from >= self.proofs[j].sectors[i].inclusion_proofs.len() {
            Verdict::Pass
        } else {
            match self.inclusion_verdict(j, i, from) {
                Verdict::Pass => self.inclusions_verdict(j, i, from + 1),
                stop => stop,
            }
        }
    }

    /// What the check of slot `i` of partition `j` says. A sector proof with
    /// no inclusion proof is malformed. The sector commitment must be the
    /// hash of `comm_c` and the root of the first inclusion proof, else the
    /// proof does not hold. There must be an inclusion proof for each
    /// challenge, else the inputs are malformed. Then the inclusion proofs
    /// are checked in order.
    pub open spec fn sector_verdict(self, j: int, i: int) -> Verdict {
        let sector_proof = self.proofs[j].sectors[i];
        if sector_proof.inclusion_proofs.len() == 0 {
            Verdict::Fail(Error::NoInclusionProofs { partition: j as usize, position: i as usize })
        } else if !binding_holds(
            self.sector(j, i).comm_r@,
            sector_proof.comm_c,
            self.comm_r_last(j, i),
        ) {
            Verdict::Reject
        } else if self.params.challenge_count != sector_proof.inclusion_proofs.len() {
            Verdict::Fail(
                Error::UnexpectedInclusionProofCount {
                    expected: self.params.challenge_count,
                    found: sector_proof.inclusion_proofs.len() as usize,
                },
            )
        } else {
            self.inclusions_verdict(j, i, 0)
        }
    }

    /// What the checks of the slots from `from` on in partition `j` say: the
    /// first that does not pass decides. Slots past the public sectors of the
    /// partition are not checked.
    pub open spec fn sectors_verdict(self, j: int, from: int) -> Verdict
        decreases self.chunk_len(j) - from,
    {
        if from < 0 || from >= self.chunk_len(j) {
            Verdict::Pass
        } else {
            match self.sector_verdict(j, from) {
                Verdict::Pass => self.sectors_verdict(j, from + 1),
                stop => stop,
            }
        }
    }

    /// What the check of partition `j` says: it must hold a sector proof in
    /// each of its `sector_count` slots, else the inputs are malformed; then
    /// the slots are checked in order.
    pub open spec fn partition_verdict(self, j: int) -> Verdict {
        if self.proofs[j].sectors.len() != self.params.sector_count {
            Verdict::Fail(
                Error::InvalidPartitionSize {
                    partition: j as usize,
                    found: self.proofs[j].sectors.len() as usize,
                    expected: self.params.sector_count,
                },
            )
        } else {
            self.sectors_verdict(j, 0)
        }
    }

    /// Number of partitions that are checked: one for each chunk of public
    /// sectors.
    pub open spec fn chunks(self) -> nat {
        chunk_count(self.sectors.len(), self.params.sector_count as nat)
    }

    /// What the checks of the partitions from `from` on say: the first that
    /// does not pass decides.
    pub open spec fn partitions_verdict(self, from: int) -> Verdict
        decreases self.chunks() - from,
    {
        if from < 0 || from >= self.chunks() {
            Verdict::Pass
        } else {
            match self.partition_verdict(from) {
                Verdict::Pass => self.partitions_verdict(from + 1),
                stop => stop,
            }
        }
    }

    /// What verifying says: the partition proofs must have room for the
    /// public sectors, else the inputs are malformed; then the partitions are
    /// checked in order.
    pub open spec fn verdict(self) -> Verdict {
        if self.sectors.len() > self.params.sector_count * self.proofs.len() {
            Verdict::Fail(
                Error::InconsistentSectors {
                    sectors: self.sectors.len() as usize,
                    sectors_per_partition: self.params.sector_count,
                    partitions: self.proofs.len() as usize,
                },
            )
        } else {
            self.partitions_verdict(0)
        }
    }

    /// The result of verifying: `true` where every check passes, `false`
    /// where the proof does not hold, an error where the inputs are
    /// malformed.
    pub open spec fn result(self) -> Result<bool, Error> {
        match self.verdict() {
            Verdict::Pass => Ok(true),
            Verdict::Reject => Ok(false),
            Verdict::Fail(e) => Err(e),
        }
    }
}

/// What verifying depends on, put together from the inputs of a call.
pub open spec fn verifying(
    post: FallbackPoSt,
    params: PublicParams,
    randomness: Seq<u8>,
    sectors: Seq<PublicSector>,
    proofs: Seq<ProofView>,
) -> Verifying {
    Verifying { shape: post.shape, params, randomness, sectors, proofs }
}

/// Where `n` sectors fit into `len` partitions of `per`, they make at most
/// `len` chunks; chunk `j` starts before the end, and the chunks together
/// reach it.
pub proof fn lemma_chunk_count(n: int, per: int, len: int, j: int)
    requires
        n >= 0,
        per >= 0,
        len >= 0,
        n <= per * len,
        0 <= j <= chunk_count(n as nat, per as nat),
    ensures
        chunk_count(n as nat, per as nat) <= len,
        j < chunk_count(n as nat, per as nat) ==> j * per < n,
        j == chunk_count(n as nat, per as nat) ==> j * per >= n,
{
    if per == 0 {
        assert(per * len == 0) by (nonlinear_arith)
            requires
                per == 0,
        ;
        assert(j * per == 0) by (nonlinear_arith)
            requires
                per == 0,
        ;
    } else {
        let parts = chunk_count(n as nat, per as nat) as int;
        let q = n / per;
        let r = n % per;
        assert(n == per * q + r && 0 <= r < per) by (nonlinear_arith)
            requires
                per > 0,
                n >= 0,
                q == n / per,
                r == n % per,
        ;
        assert(parts * per == per * parts) by (nonlinear_arith);
        assert((parts - 1) * per == per * parts - per) by (nonlinear_arith);
        assert(per * (q + 1) == per * q + per) by (nonlinear_arith);
        assert(parts == 0 || (parts - 1) * per < n);
        assert(parts * per >= n);
        if parts > len {
            assert((parts - 1) * per >= per * len) by (nonlinear_arith)
                requires
                    parts - 1 >= len,
                    per > 0,
                    len >= 0,
            ;
        }
        if j < parts {
            assert(j * per <= (parts - 1) * per) by (nonlinear_arith)
                requires
                    j <= parts - 1,
                    per > 0,
            ;
        }
    }
}

impl FallbackPoSt {
    /// Checks inclusion proof `n` in slot `i` of partition `j`, which is
    /// checked against public sector `s`.
    fn verify_inclusion_proof<'a>(
        &self,
        pub_params: &PublicParams,
        pub_inputs: &PublicInputs<'a>,
        partition_proofs: &[Proof],
        j: usize,
        i: usize,
        n: usize,
        s: usize,
        comm_r_last: &Domain,
    ) -> (verdict: Verdict)
        requires
            pub_params.leaves() > 0,
            j < partition_proofs@.len(),
            i < partition_proofs@[j as int].sectors@.len(),
            n < partition_proofs@[j as int].sectors@[i as int].inclusion_proofs@.len(),
            s == j * pub_params.sector_count + i,
            s < pub_inputs.sectors@.len(),
            comm_r_last@ == partition_proofs@[j as int].sectors@[i as int].inclusion_proofs@[0].root@,
        ensures
            verdict == verifying(
                *self,
                *pub_params,
                pub_inputs.randomness@,
                pub_inputs.sectors@,
                partitions_view(partition_proofs@),
            ).inclusion_verdict(j as int, i as int, n as int),
    {
        let ghost vf = verifying(
            *self,
            *pub_params,
            pub_inputs.randomness@,
            pub_inputs.sectors@,
            partitions_view(partition_proofs@),
        );
        let inclusion_proof = &partition_proofs[j].sectors[i].inclusion_proofs[n];
        proof {
            assert(vf.proofs[j as int].sectors[i as int].inclusion_proofs[n as int]
                == inclusion_proof@);
            assert(vf.comm_r_last(j as int, i as int) == comm_r_last@);
            assert(vf.sector(j as int, i as int) == pub_inputs.sectors@[s as int]);
        }
        let challenge_index: u64 = match pub_params.shape {
            PoStShape::Winning => {
                let legacy_is_slot = match s.checked_mul(pub_params.challenge_count) {
                    Some(before) => match before.checked_add(n) {
                        Some(legacy_index) => legacy_index == i,
                        None => false,
                    },
                    None => false,
                };
                if !legacy_is_slot {
                    return Verdict::Fail(Error::WinningChallengeAssumption);
                }
                i as u64
            },
            PoStShape::Window => n as u64,
        };
        let challenged_leaf = generate_leaf_challenge(
            pub_params,
            pub_inputs.randomness,
            pub_inputs.sectors[s].id,
            challenge_index,
        );
        if !inclusion_proof.root().same(comm_r_last) {
            return Verdict::Reject;
        }
        let leaves = #[verifier::truncate] (pub_params.sector_size as usize) / 32;
        let path_fits = match expected_len(self.shape, leaves) {
            Some(expected_path_length) => expected_path_length == inclusion_proof.path_len(),
            None => false,
        };
        if !path_fits {
            return Verdict::Reject;
        }
        if !inclusion_proof.validate(
            self.shape,
            #[verifier::truncate] (challenged_leaf as usize),
        ) {
            return Verdict::Reject;
        }
        Verdict::Pass
    }

    /// Checks slot `i` of partition `j` against public sector `s`.
    fn verify_sector<'a>(
        &self,
        pub_params: &PublicParams,
        pub_inputs: &PublicInputs<'a>,
        partition_proofs: &[Proof],
        j: usize,
        i: usize,
        s: usize,
    ) -> (verdict: Verdict)
        requires
            pub_params.leaves() > 0,
            j < partition_proofs@.len(),
            i < partition_proofs@[j as int].sectors@.len(),
            s == j * pub_params.sector_count + i,
            s < pub_inputs.sectors@.len(),
        ensures
            verdict == verifying(
                *self,
                *pub_params,
                pub_inputs.randomness@,
                pub_inputs.sectors@,
                partitions_view(partition_proofs@),
            ).sector_verdict(j as int, i as int),
    {
        let ghost vf = verifying(
            *self,
            *pub_params,
            pub_inputs.randomness@,
            pub_inputs.sectors@,
            partitions_view(partition_proofs@),
        );
        let pub_sector = &pub_inputs.sectors[s];
        let sector_proof = &partition_proofs[j].sectors[i];
        let inclusion_proofs = &sector_proof.inclusion_proofs;
        proof {
            assert(vf.proofs[j as int].sectors[i as int] == sector_proof@);
            assert(vf.sector(j as int, i as int) == pub_inputs.sectors@[s as int]);
        }
        if inclusion_proofs.len() == 0 {
            return Verdict::Fail(Error::NoInclusionProofs { partition: j, position: i });
        }
        // comm_r_last is the root of the proof
        let comm_r_last = inclusion_proofs[0].root();
        proof {
            assert(vf.comm_r_last(j as int, i as int) == comm_r_last@);
        }
        if !commitment_binds(&pub_sector.comm_r, &sector_proof.comm_c, &comm_r_last) {
            return Verdict::Reject;
        }
        if pub_params.challenge_count != inclusion_proofs.len() {
            return Verdict::Fail(
                Error::UnexpectedInclusionProofCount {
                    expected: pub_params.challenge_count,
                    found: inclusion_proofs.len(),
                },
            );
        }
        let mut n: usize = 0;
        while n < inclusion_proofs.len()
            invariant
                n <= inclusion_proofs@.len(),
                pub_params.leaves() > 0,
                j < partition_proofs@.len(),
                i < partition_proofs@[j as int].sectors@.len(),
                s == j * pub_params.sector_count + i,
                s < pub_inputs.sectors@.len(),
                inclusion_proofs == &partition_proofs@[j as int].sectors@[i as int].inclusion_proofs,
                inclusion_proofs@.len() > 0,
                comm_r_last@ == inclusion_proofs@[0].root@,
                vf == verifying(
                    *self,
                    *pub_params,
                    pub_inputs.randomness@,
                    pub_inputs.sectors@,
                    partitions_view(partition_proofs@),
                ),
                vf.proofs[j as int].sectors[i as int].inclusion_proofs.len()
                    == inclusion_proofs@.len(),
                vf.sector_verdict(j as int, i as int) == vf.inclusions_verdict(
                    j as int,
                    i as int,
                    n as int,
                ),
            decreases inclusion_proofs@.len() - n,
        {
            let verdict = self.verify_inclusion_proof(
                pub_params,
                pub_inputs,
                partition_proofs,
                j,
                i,
                n,
                s,
                &comm_r_last,
            );
            proof {
                assert(vf.inclusions_verdict(j as int, i as int, n as int) == (match verdict {
                    Verdict::Pass => vf.inclusions_verdict(j as int, i as int, n + 1),
                    stop => stop,
                }));
            }
            match verdict {
                Verdict::Pass => {},
                stop => {
                    return stop;
                },
            }
            n += 1;
        }
        Verdict::Pass
    }

    /// Checks partition `j`.
    fn verify_partition<'a>(
        &self,
        pub_params: &PublicParams,
        pub_inputs: &PublicInputs<'a>,
        partition_proofs: &[Proof],
        j: usize,
    ) -> (verdict: Verdict)
        requires
            pub_params.leaves() > 0,
            j < partition_proofs@.len(),
            j * pub_params.sector_count < pub_inputs.sectors@.len(),
        ensures
            verdict == verifying(
                *self,
                *pub_params,
                pub_inputs.randomness@,
                pub_inputs.sectors@,
                partitions_view(partition_proofs@),
            ).partition_verdict(j as int),
    {
        let ghost vf = verifying(
            *self,
            *pub_params,
            pub_inputs.randomness@,
            pub_inputs.sectors@,
            partitions_view(partition_proofs@),
        );
        let num_sectors_per_chunk = pub_params.sector_count;
        let proof = &partition_proofs[j];
        proof {
            assert(vf.proofs[j as int] == proof@);
        }
        if proof.sectors.len() != num_sectors_per_chunk {
            return Verdict::Fail(
                Error::InvalidPartitionSize {
                    partition: j,
                    found: proof.sectors.len(),
                    expected: num_sectors_per_chunk,
                },
            );
        }
        let num_sectors = pub_inputs.sectors.len();
        let start = j * num_sectors_per_chunk;
        let rest = num_sectors - start;
        let chunk_len = if rest < num_sectors_per_chunk {
            rest
        } else {
            num_sectors_per_chunk
        };
        let mut i: usize = 0;
        while i < chunk_len
            invariant
                i <= chunk_len,
                chunk_len == vf.chunk_len(j as int),
                chunk_len <= num_sectors_per_chunk,
                num_sectors_per_chunk == pub_params.sector_count,
                start == j * num_sectors_per_chunk,
                start + chunk_len <= pub_inputs.sectors@.len(),
                pub_params.leaves() > 0,
                j < partition_proofs@.len(),
                partition_proofs@[j as int].sectors@.len() == num_sectors_per_chunk,
                vf == verifying(
                    *self,
                    *pub_params,
                    pub_inputs.randomness@,
                    pub_inputs.sectors@,
                    partitions_view(partition_proofs@),
                ),
                num_sectors == pub_inputs.sectors@.len(),
                vf.partition_verdict(j as int) == vf.sectors_verdict(j as int, i as int),
            decreases chunk_len - i,
        {
            let verdict = self.verify_sector(
                pub_params,
                pub_inputs,
                partition_proofs,
                j,
                i,
                start + i,
            );
            proof {
                assert(vf.sectors_verdict(j as int, i as int) == (match verdict {
                    Verdict::Pass => vf.sectors_verdict(j as int, i + 1),
                    stop => stop,
                }));
            }
            match verdict {
                Verdict::Pass => {},
                stop => {
                    return stop;
                },
            }
            i += 1;
        }
        Verdict::Pass
    }

    /// Verifies the partition proofs against the public inputs. The proofs
    /// must have room for the public sectors and a sector proof in every
    /// slot, and every checked sector proof an inclusion proof for each
    /// challenge: else the inputs are malformed and the result is an error.
    /// The result is `true` where, for every public sector, the commitment is
    /// the hash of `comm_c` and the root of the first inclusion proof, and
    /// every inclusion proof has that root, the path length that the sector
    /// size asks for, and validates for the leaf that its challenge points
    /// at; it is `false` at the first of these that does not hold.
    pub fn verify_all_partitions<'a>(
        &self,
        pub_params: &PublicParams,
        pub_inputs: &PublicInputs<'a>,
        partition_proofs: &[Proof],
    ) -> (result: Result<bool, Error>)
        requires
            pub_params.leaves() > 0,
        ensures
            result == verifying(
                *self,
                *pub_params,
                pub_inputs.randomness@,
                pub_inputs.sectors@,
                partitions_view(partition_proofs@),
            ).result(),
    {
        let ghost vf = verifying(
            *self,
            *pub_params,
            pub_inputs.randomness@,
            pub_inputs.sectors@,
            partitions_view(partition_proofs@),
        );
        let num_sectors_per_chunk = pub_params.sector_count;
        let num_sectors = pub_inputs.sectors.len();
        let has_room = match num_sectors_per_chunk.checked_mul(partition_proofs.len()) {
            Some(room) => num_sectors <= room,
            None => true,
        };
        if !has_room {
            return Err(
                Error::InconsistentSectors {
                    sectors: num_sectors,
                    sectors_per_partition: num_sectors_per_chunk,
                    partitions: partition_proofs.len(),
                },
            );
        }
        let chunks = count_chunks(num_sectors, num_sectors_per_chunk);
        let mut j: usize = 0;
        while j < chunks
            invariant
                j <= chunks,
                chunks == vf.chunks(),
                num_sectors == pub_inputs.sectors@.len(),
                num_sectors_per_chunk == pub_params.sector_count,
                num_sectors <= num_sectors_per_chunk * partition_proofs@.len(),
                pub_params.leaves() > 0,
                vf == verifying(
                    *self,
                    *pub_params,
                    pub_inputs.randomness@,
                    pub_inputs.sectors@,
                    partitions_view(partition_proofs@),
                ),
                vf.verdict() == vf.partitions_verdict(j as int),
            decreases chunks - j,
        {
            proof {
                lemma_chunk_count(
                    num_sectors as int,
                    num_sectors_per_chunk as int,
                    partition_proofs@.len() as int,
                    j as int,
                );
            }
            let verdict = self.verify_partition(pub_params, pub_inputs, partition_proofs, j);
            proof {
                assert(vf.partitions_verdict(j as int) == (match verdict {
                    Verdict::Pass => vf.partitions_verdict(j + 1),
                    stop => stop,
                }));
            }
            match verdict {
                Verdict::Pass => {},
                Verdict::Reject => {
                    return Ok(false);
                },
                Verdict::Fail(e) => {
                    return Err(e);
                },
            }
            j += 1;
        }
        Ok(true)
    }
}

/// The number of challenges that `partitions` partitions answer together.
pub open spec fn total_challenges(params: PublicParams, partitions: usize) -> nat {
    (partitions * params.sector_count * params.challenge_count) as nat
}

/// Whether counting the challenges of `partitions` partitions stays inside
/// the machine word at each of its two products.
pub open spec fn challenges_countable(params: PublicParams, partitions: usize) -> bool {
    partitions * params.sector_count <= usize::MAX && partitions * params.sector_count
        * params.challenge_count <= usize::MAX
}

impl FallbackPoSt {
    /// Whether `partitions` partitions answer at least as many challenges as
    /// the requirements ask for. The number of challenges must fit the
    /// machine word.
    pub fn satisfies_requirements(
        public_params: &PublicParams,
        requirements: &ChallengeRequirements,
        partitions: usize,
    ) -> (satisfied: bool)
        requires
            challenges_countable(*public_params, partitions),
        ensures
            satisfied == (total_challenges(*public_params, partitions)
                >= requirements.minimum_challenge_count),
    {
        let checked = partitions * public_params.sector_count;
        checked * public_params.challenge_count >= requirements.minimum_challenge_count
    }

    /// As `satisfies_requirements`, for any number of partitions: a count of
    /// challenges that does not fit the machine word is reported as an error.
    pub fn try_satisfies_requirements(
        public_params: &PublicParams,
        requirements: &ChallengeRequirements,
        partitions: usize,
    ) -> (satisfied: Result<bool, Error>)
        ensures
            satisfied is Ok <==> challenges_countable(*public_params, partitions),
            satisfied is Ok ==> satisfied->Ok_0 == (total_challenges(*public_params, partitions)
                >= requirements.minimum_challenge_count),
            satisfied is Err ==> satisfied == Err::<bool, Error>(Error::ChallengeCountOverflow),
    {
        match partitions.checked_mul(public_params.sector_count) {
            Some(checked) => match checked.checked_mul(public_params.challenge_count) {
                Some(_) => Ok(
                    FallbackPoSt::satisfies_requirements(public_params, requirements, partitions),
                ),
                None => Err(Error::ChallengeCountOverflow),
            },
            None => Err(Error::ChallengeCountOverflow),
        }
    }
}

} // verus!
