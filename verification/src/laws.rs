//! What holds of proving and verifying together.

use vstd::prelude::*;
use crate::error::{Error, SectorId};
use crate::faults::strictly_ascending;
use crate::merkle::expected_path_len;
use crate::params::{chunk_count, PoStShape};
use crate::prover::{binding_holds, leaf_index, lemma_chunks, Proving};
use crate::types::{partitions_view, Proof, PublicSector, SectorProofView};
use crate::verify::{lemma_chunk_count, Verifying};

verus! {

/// Two ascending lists of the same ids are the same list.
pub proof fn lemma_ascending_listing_is_unique(a: Seq<SectorId>, b: Seq<SectorId>)
    requires
        strictly_ascending(a),
        strictly_ascending(b),
        a.to_set() == b.to_set(),
    ensures
        a == b,
    decreases a.len(),
{
    if a.len() == 0 {
        if b.len() > 0 {
            assert(b.contains(b[0]));
            assert(b.to_set().contains(b[0]));
            assert(a.contains(b[0]));
        }
        assert(a =~= b);
    } else {
        let x = a.last();
        assert(a.contains(x));
        assert(a.to_set().contains(x));
        assert(b.contains(x));
        let kb = choose|k: int| 0 <= k < b.len() && b[k] == x;
        // x is the greatest id of both lists, so it is the last of `b` too.
        if kb < b.len() - 1 {
            let y = b.last();
            assert(b.contains(y));
            assert(b.to_set().contains(y));
            assert(a.contains(y));
            let ka = choose|k: int| 0 <= k < a.len() && a[k] == y;
            assert(b[kb] < b[b.len() - 1]);
            if ka < a.len() - 1 {
                assert(a[ka] < a[a.len() - 1]);
            }
        }
        let a0 = a.drop_last();
        let b0 = b.drop_last();
        assert forall|y: SectorId| a0.to_set().contains(y) <==> b0.to_set().contains(y) by {
            if a0.contains(y) {
                let k = choose|k: int| 0 <= k < a0.len() && a0[k] == y;
                assert(a[k] == y);
                assert(a[k] < a[a.len() - 1]);
                assert(a.contains(y));
                assert(a.to_set().contains(y));
                assert(b.contains(y));
                let m = choose|m: int| 0 <= m < b.len() && b[m] == y;
                assert(m < b.len() - 1);
                assert(b0[m] == y);
            }
            if b0.contains(y) {
                let k = choose|k: int| 0 <= k < b0.len() && b0[k] == y;
                assert(b[k] == y);
                assert(b[k] < b[b.len() - 1]);
                assert(b.contains(y));
                assert(b.to_set().contains(y));
                assert(a.contains(y));
                let m = choose|m: int| 0 <= m < a.len() && a[m] == y;
                assert(m < a.len() - 1);
                assert(a0[m] == y);
            }
        }
        assert(a0.to_set() =~= b0.to_set());
        lemma_ascending_listing_is_unique(a0, b0);
        assert(a =~= a0.push(x));
        assert(b =~= b0.push(x));
    }
}

/// Proving is deterministic: the inputs and the answers of the trees leave
/// one outcome only. Two results of proving from the same inputs and answers
/// are the same error, the same list of faulty sectors, or the same
/// partition proofs.
pub proof fn law_proving_is_deterministic(
    pv: Proving,
    private: usize,
    partitions: usize,
    first: Result<Vec<Proof>, Error>,
    second: Result<Vec<Proof>, Error>,
)
    requires
        pv.is_outcome(private, partitions, first),
        pv.is_outcome(private, partitions, second),
    ensures
        match (first, second) {
            (Ok(a), Ok(b)) => partitions_view(a@) == partitions_view(b@),
            (Err(Error::FaultySectors(a)), Err(Error::FaultySectors(b))) => a@ == b@,
            (Err(a), Err(b)) => a == b,
            _ => false,
        },
{
    if pv.input_error(private, partitions) is None {
        match (first, second) {
            (Err(Error::FaultySectors(a)), Err(Error::FaultySectors(b))) => {
                lemma_ascending_listing_is_unique(a@, b@);
            },
            _ => {},
        }
    }
}

/// Where the inputs can be proven at all, proving fails
/// exactly where a proven sector is faulty, that is where one of its answers
/// is missing, does not validate, has another root than the sector's
/// `comm_r_last`, or where the sector commitment is not the hash of the two
/// commitments. The failure lists the ids of exactly the faulty sectors, in
/// ascending order.
pub proof fn law_faulty_sectors_are_reported(
    pv: Proving,
    private: usize,
    partitions: usize,
    result: Result<Vec<Proof>, Error>,
)
    requires
        pv.input_error(private, partitions) is None,
        pv.is_outcome(private, partitions, result),
    ensures
        result is Err <==> exists|s: int| 0 <= s < pv.proven_sectors() && pv.faulty(s),
        match result {
            Ok(_) => true,
            Err(Error::FaultySectors(ids)) => {
                &&& strictly_ascending(ids@)
                &&& forall|id: SectorId|
                    ids@.contains(id) <==> exists|s: int|
                        0 <= s < pv.proven_sectors() && pv.sectors[s].id == id && pv.faulty(s)
            },
            Err(_) => false,
        },
{
    match result {
        Err(Error::FaultySectors(ids)) => {
            assert forall|id: SectorId|
                ids@.contains(id) <==> exists|s: int|
                    0 <= s < pv.proven_sectors() && pv.sectors[s].id == id && pv.faulty(s) by {
                assert(ids@.contains(id) <==> ids@.to_set().contains(id));
                assert(pv.fault_ids().contains(id) <==> exists|s: int|
                    0 <= s < pv.proven_sectors() && pv.sectors[s].id == id && pv.faulty(s));
            }
        },
        _ => {},
    }
}

/// A sector whose commitment is not the hash of its two commitments, or one
/// of whose answers has another root than its `comm_r_last`, is faulty as
/// soon as it has a challenge to answer.
pub proof fn law_tampered_sectors_are_faulty(pv: Proving, s: int, i: int)
    requires
        0 <= i < pv.challenges_per_sector(),
        !pv.binds(s) || (pv.response(s, i) is Some && pv.response(s, i)->0.root
            != pv.commitments[s].comm_r_last),
    ensures
        pv.faulty(s),
{
    assert(!pv.accepted(s, i));
}

/// Every partition of a window proof holds exactly `sector_count`
/// sector proofs, the last one too, and the slots past the last sector hold
/// the proof of the last sector.
pub proof fn law_window_partitions_are_full(pv: Proving, j: int, i: int)
    requires
        pv.params.shape is Window,
        0 <= j < pv.partitions().len(),
        0 <= i < pv.params.sector_count,
    ensures
        pv.partitions()[j].sectors.len() == pv.params.sector_count,
        j * pv.params.sector_count + i >= pv.sectors.len() ==> pv.partitions()[j].sectors[i]
            == pv.window_sector_proof(pv.sectors.len() - 1),
        j * pv.params.sector_count + i < pv.sectors.len() ==> pv.partitions()[j].sectors[i]
            == pv.window_sector_proof(j * pv.params.sector_count + i),
{
}

impl Verifying {
    /// Where the inclusion proofs of a slot pass from `from` on, each of them
    /// passes.
    pub proof fn lemma_inclusions_passed(self, j: int, i: int, from: int, n: int)
        requires
            0 <= from <= n < self.proofs[j].sectors[i].inclusion_proofs.len(),
            self.inclusions_verdict(j, i, from) is Pass,
        ensures
            self.inclusion_verdict(j, i, n) is Pass,
        decreases n - from,
    {
        if from < n {
            self.lemma_inclusions_passed(j, i, from + 1, n);
        }
    }

    /// Where the slots of a partition pass from `from` on, each of them
    /// passes.
    pub proof fn lemma_sectors_passed(self, j: int, from: int, i: int)
        requires
            0 <= from <= i < self.chunk_len(j),
            self.sectors_verdict(j, from) is Pass,
        ensures
            self.sector_verdict(j, i) is Pass,
        decreases i - from,
    {
        if from < i {
            self.lemma_sectors_passed(j, from + 1, i);
        }
    }

    /// Where the partitions pass from `from` on, each of them passes.
    pub proof fn lemma_partitions_passed(self, from: int, j: int)
        requires
            0 <= from <= j < self.chunks(),
            self.partitions_verdict(from) is Pass,
        ensures
            self.partition_verdict(j) is Pass,
        decreases j - from,
    {
        if from < j {
            self.lemma_partitions_passed(from + 1, j);
        }
    }

    /// The inclusion proofs of a slot, checked from `from` on, stop at the
    /// first that does not pass.
    pub proof fn lemma_inclusions_stop(self, j: int, i: int, from: int, n: int)
        requires
            0 <= from <= n <= self.proofs[j].sectors[i].inclusion_proofs.len(),
            forall|m: int| from <= m < n ==> self.inclusion_verdict(j, i, m) is Pass,
        ensures
            self.inclusions_verdict(j, i, from) == self.inclusions_verdict(j, i, n),
        decreases n - from,
    {
        if from < n {
            self.lemma_inclusions_stop(j, i, from + 1, n);
        }
    }

    /// The slots of a partition, checked from `from` on, stop at the first
    /// that does not pass.
    pub proof fn lemma_sectors_stop(self, j: int, from: int, i: int)
        requires
            0 <= from <= i <= self.chunk_len(j),
            forall|m: int| from <= m < i ==> self.sector_verdict(j, m) is Pass,
        ensures
            self.sectors_verdict(j, from) == self.sectors_verdict(j, i),
        decreases i - from,
    {
        if from < i {
            self.lemma_sectors_stop(j, from + 1, i);
        }
    }

    /// The partitions, checked from `from` on, stop at the first that does
    /// not pass.
    pub proof fn lemma_partitions_stop(self, from: int, j: int)
        requires
            0 <= from <= j <= self.chunks(),
            forall|m: int| from <= m < j ==> self.partition_verdict(m) is Pass,
        ensures
            self.partitions_verdict(from) == self.partitions_verdict(j),
        decreases j - from,
    {
        if from < j {
            self.lemma_partitions_stop(from + 1, j);
        }
    }

    /// The challenged leaf that inclusion proof `n` in slot `i` of partition
    /// `j` has to open.
    pub open spec fn challenged_leaf(self, j: int, i: int, n: int) -> u64 {
        let index = if self.params.shape is Winning {
            i
        } else {
            n
        };
        crate::challenge::leaf_challenge(
            self.params.leaves(),
            self.randomness,
            self.sector(j, i).id,
            index as u64,
        ) as u64
    }
}

/// Where verifying says `true`, every sector proof
/// that stands against a public sector binds the commitment of that
/// sector to its `comm_c` and to the root of its first inclusion proof, and
/// holds one inclusion proof for each challenge; each of them has that root,
/// the path length that the sector size asks for, and validates for the leaf
/// that its challenge points at. So a proof in which any of these was broken
/// is not verified.
pub proof fn law_verified_proofs_hold(vf: Verifying, j: int, i: int, n: int)
    requires
        vf.result() == Ok::<bool, Error>(true),
        0 <= j < vf.chunks(),
        0 <= i < vf.chunk_len(j),
        0 <= n < vf.proofs[j].sectors[i].inclusion_proofs.len(),
    ensures
        vf.proofs[j].sectors.len() == vf.params.sector_count,
        binding_holds(
            vf.sector(j, i).comm_r@,
            vf.proofs[j].sectors[i].comm_c,
            vf.comm_r_last(j, i),
        ),
        vf.proofs[j].sectors[i].inclusion_proofs.len() == vf.params.challenge_count,
        vf.proofs[j].sectors[i].inclusion_proofs[n].root == vf.comm_r_last(j, i),
        expected_path_len(vf.shape, vf.leaves()) == Some(
            vf.proofs[j].sectors[i].inclusion_proofs[n].path.len(),
        ),
        vf.proofs[j].sectors[i].inclusion_proofs[n].validates(
            vf.shape,
            leaf_index(vf.challenged_leaf(j, i, n)),
        ),
{
    vf.lemma_partitions_passed(0, j);
    vf.lemma_sectors_passed(j, 0, i);
    vf.lemma_inclusions_passed(j, i, 0, n);
}

/// The public sectors with the commitments of the sectors at `a` and `b`
/// swapped; each sector keeps its id.
pub open spec fn swap_commitments(sectors: Seq<PublicSector>, a: int, b: int) -> Seq<
    PublicSector,
> {
    sectors.update(a, PublicSector { id: sectors[a].id, comm_r: sectors[b].comm_r }).update(
        b,
        PublicSector { id: sectors[b].id, comm_r: sectors[a].comm_r },
    )
}

/// Verifying the same proofs against public sectors with the same ids gives
/// the same verdict on the inclusion proofs of a slot.
proof fn lemma_same_inclusions(vf: Verifying, other: Verifying, j: int, i: int, from: int)
    requires
        other.shape == vf.shape,
        other.params == vf.params,
        other.randomness == vf.randomness,
        other.proofs == vf.proofs,
        other.sector(j, i).id == vf.sector(j, i).id,
        0 <= from,
    ensures
        other.inclusions_verdict(j, i, from) == vf.inclusions_verdict(j, i, from),
    decreases vf.proofs[j].sectors[i].inclusion_proofs.len() - from,
{
    if from < vf.proofs[j].sectors[i].inclusion_proofs.len() {
        assert(other.inclusion_verdict(j, i, from) == vf.inclusion_verdict(j, i, from));
        lemma_same_inclusions(vf, other, j, i, from + 1);
    }
}

/// Where verifying says `true`, it says `false` once the commitments
/// of two public sectors with different commitments are swapped.
pub proof fn law_swapped_commitments_are_rejected(vf: Verifying, a: int, b: int)
    requires
        vf.result() == Ok::<bool, Error>(true),
        0 <= a < b < vf.sectors.len(),
        vf.sectors[a].comm_r@ != vf.sectors[b].comm_r@,
    ensures
        (Verifying { sectors: swap_commitments(vf.sectors, a, b), ..vf }).result() == Ok::<
            bool,
            Error,
        >(false),
{
    let other = Verifying { sectors: swap_commitments(vf.sectors, a, b), ..vf };
    let per = vf.params.sector_count as int;
    let n = vf.sectors.len() as int;
    let len = vf.proofs.len() as int;
    assert(n <= per * len);
    assert(per > 0) by (nonlinear_arith)
        requires
            0 < n <= per * len,
            per >= 0,
    ;
    let ja = a / per;
    let ia = a % per;
    assert(a == per * ja + ia && 0 <= ia < per && ja >= 0) by (nonlinear_arith)
        requires
            per > 0,
            a >= 0,
            ja == a / per,
            ia == a % per,
    ;
    assert(ja * per == per * ja) by (nonlinear_arith);
    let chunks = vf.chunks() as int;
    lemma_chunk_count(n, per, len, chunks);
    assert(ja < chunks) by {
        if ja >= chunks {
            assert(ja * per >= chunks * per) by (nonlinear_arith)
                requires
                    ja >= chunks,
                    per > 0,
            ;
        }
    }
    assert(other.chunks() == vf.chunks());
    assert(other.sectors.len() == vf.sectors.len());
    // Before partition `ja` nothing has changed, so every partition passes.
    assert forall|m: int| 0 <= m < ja implies other.partition_verdict(m) is Pass by {
        vf.lemma_partitions_passed(0, m);
        assert(other.chunk_len(m) == vf.chunk_len(m));
        assert((m + 1) * per <= ja * per) by (nonlinear_arith)
            requires
                m + 1 <= ja,
                per > 0,
        ;
        assert((m + 1) * per == m * per + per) by (nonlinear_arith);
        assert forall|i: int| 0 <= i < other.chunk_len(m) implies other.sector_verdict(m, i)
            is Pass by {
            vf.lemma_sectors_passed(m, 0, i);
            assert(m * per + i < a);
            assert(other.sector(m, i) == vf.sector(m, i));
            lemma_same_inclusions(vf, other, m, i, 0);
        }
        other.lemma_sectors_stop(m, 0, other.chunk_len(m));
    }
    // In partition `ja` the slots before `ia` pass, and slot `ia` is rejected.
    vf.lemma_partitions_passed(0, ja);
    assert(other.chunk_len(ja) == vf.chunk_len(ja));
    assert(ia < vf.chunk_len(ja));
    assert forall|i: int| 0 <= i < ia implies other.sector_verdict(ja, i) is Pass by {
        vf.lemma_sectors_passed(ja, 0, i);
        assert(ja * per + i < a);
        assert(other.sector(ja, i) == vf.sector(ja, i));
        lemma_same_inclusions(vf, other, ja, i, 0);
    }
    vf.lemma_sectors_passed(ja, 0, ia);
    assert(vf.sector(ja, ia) == vf.sectors[a]);
    assert(other.sector(ja, ia).comm_r == vf.sectors[b].comm_r);
    assert(other.sector_verdict(ja, ia) is Reject);
    other.lemma_sectors_stop(ja, 0, ia);
    assert(other.sectors_verdict(ja, ia) is Reject);
    assert(other.partition_verdict(ja) is Reject);
    other.lemma_partitions_stop(0, ja);
    assert(other.partitions_verdict(ja) is Reject);
}

impl Proving {
    /// Whether every accepted answer has the path length that the sector size
    /// asks for, as the answers of trees over sectors of that size have.
    pub open spec fn paths_fit(self) -> bool {
        forall|s: int, i: int|
            0 <= s < self.proven_sectors() && 0 <= i < self.challenges_per_sector()
                && #[trigger] self.accepted(s, i) ==> expected_path_len(
                self.shape,
                ((self.params.sector_size as usize) / 32) as nat,
            ) == Some(self.response(s, i)->0.path.len())
    }

    /// What verifying the proofs of this proving depends on.
    pub open spec fn verifying_of(self) -> Verifying {
        Verifying {
            shape: self.shape,
            params: self.params,
            randomness: self.randomness,
            sectors: self.sectors,
            proofs: self.partitions(),
        }
    }

    /// Where the first `n` answers of sector `s` are accepted, they are its
    /// accepted answers.
    pub proof fn lemma_all_accepted(self, s: int, n: nat)
        requires
            forall|i: int| 0 <= i < n ==> self.accepted(s, i),
        ensures
            self.accepted_proofs(s, n).len() == n,
            forall|i: int|
                0 <= i < n ==> #[trigger] self.accepted_proofs(s, n)[i] == self.response(s, i)->0,
        decreases n,
    {
        if n > 0 {
            self.lemma_all_accepted(s, (n - 1) as nat);
        }
    }

    /// Where the first `n` answers of the first sector are accepted, each
    /// makes a sector proof of a winning proof.
    pub proof fn lemma_all_accepted_winning(self, n: nat)
        requires
            forall|i: int| 0 <= i < n ==> self.accepted(0, i),
        ensures
            self.winning_sector_proofs(n).len() == n,
            forall|i: int|
                0 <= i < n ==> #[trigger] self.winning_sector_proofs(n)[i] == (SectorProofView {
                    inclusion_proofs: seq![self.response(0, i)->0],
                    comm_c: self.commitments[0].comm_c,
                    comm_r_last: self.commitments[0].comm_r_last,
                }),
        decreases n,
    {
        if n > 0 {
            self.lemma_all_accepted_winning((n - 1) as nat);
        }
    }
}

/// The proofs of sectors of which none is faulty verify. This
/// holds where every accepted answer has the path length that the sector size
/// asks for, where a window proof has a challenge for each sector, and where
/// the public sectors of a winning proof are one sector repeated.
pub proof fn law_proofs_of_sound_sectors_verify(pv: Proving, partition_count: usize)
    requires
        pv.sectors.len() <= usize::MAX,
        pv.input_error(pv.sectors.len() as usize, partition_count) is None,
        pv.no_faults(),
        pv.paths_fit(),
        pv.params.shape is Window ==> pv.params.challenge_count > 0,
        pv.params.shape is Winning ==> forall|i: int|
            0 <= i < pv.sectors.len() ==> (#[trigger] pv.sectors[i]).id == pv.sectors[0].id
                && pv.sectors[i].comm_r@ == pv.sectors[0].comm_r@,
    ensures
        pv.verifying_of().result() == Ok::<bool, Error>(true),
{
    let vf = pv.verifying_of();
    let per = pv.params.sector_count as int;
    let n = pv.sectors.len() as int;
    let cc = pv.params.challenge_count as int;
    match pv.params.shape {
        PoStShape::Window => {
            let chunks = vf.chunks() as int;
            assert(vf.proofs.len() == chunks);
            if n == 0 {
                assert(chunks == 0) by (nonlinear_arith)
                    requires
                        n == 0,
                        per >= 0,
                        chunks == chunk_count(n as nat, per as nat),
                ;
                assert(per * 0 == 0) by (nonlinear_arith);
            } else {
                assert(per > 0) by (nonlinear_arith)
                    requires
                        0 < n <= partition_count * per,
                        per >= 0,
                ;
                lemma_chunks(n, per, chunks, chunks);
                assert(per * chunks == chunks * per) by (nonlinear_arith);
                assert forall|j: int| 0 <= j < chunks implies vf.partition_verdict(j)
                    is Pass by {
                    lemma_chunks(n, per, chunks, j);
                    assert forall|i: int| 0 <= i < vf.chunk_len(j) implies vf.sector_verdict(j, i)
                        is Pass by {
                        let s = j * per + i;
                        assert(0 <= s < n) by (nonlinear_arith)
                            requires
                                s == j * per + i,
                                0 <= i,
                                j >= 0,
                                per > 0,
                                i < n - j * per,
                        ;
                        assert(pv.window_slot(j, i) == s);
                        assert(vf.proofs[j].sectors[i] == pv.window_sector_proof(s));
                        assert(!pv.faulty(s));
                        assert forall|k: int| 0 <= k < cc implies pv.accepted(s, k) by {
                            if !pv.accepted(s, k) {
                                assert(pv.faulty_within(s, cc as nat));
                            }
                        }
                        pv.lemma_all_accepted(s, cc as nat);
                        let proofs = pv.accepted_proofs(s, cc as nat);
                        assert(proofs[0] == pv.response(s, 0)->0);
                        assert(pv.accepted(s, 0));
                        assert(vf.comm_r_last(j, i) == pv.commitments[s].comm_r_last);
                        assert(vf.sector(j, i) == pv.sectors[s]);
                        assert forall|k: int| 0 <= k < cc implies vf.inclusion_verdict(j, i, k)
                            is Pass by {
                            assert(proofs[k] == pv.response(s, k)->0);
                            assert(pv.accepted(s, k));
                        }
                        vf.lemma_inclusions_stop(j, i, 0, cc);
                    }
                    vf.lemma_sectors_stop(j, 0, vf.chunk_len(j));
                }
                vf.lemma_partitions_stop(0, chunks);
            }
        },
        PoStShape::Winning => {
            assert(n == per && per > 0 && cc == 1);
            assert(n % per == 0 && n / per == 1) by (nonlinear_arith)
                requires
                    n == per,
                    per > 0,
            ;
            assert(vf.chunks() == 1);
            assert(per * 1 == per) by (nonlinear_arith);
            assert(!pv.faulty(0));
            assert forall|i: int| 0 <= i < per implies pv.accepted(0, i) by {
                if !pv.accepted(0, i) {
                    assert(pv.faulty_within(0, per as nat));
                }
            }
            pv.lemma_all_accepted_winning(per as nat);
            assert(vf.proofs[0].sectors == pv.winning_sector_proofs(per as nat));
            assert(0 * per == 0) by (nonlinear_arith);
            assert(vf.chunk_len(0) == per);
            assert forall|i: int| 0 <= i < per implies vf.sector_verdict(0, i) is Pass by {
                let sector_proof = pv.winning_sector_proofs(per as nat)[i];
                assert(vf.proofs[0].sectors[i] == sector_proof);
                assert(sector_proof.inclusion_proofs.len() == 1);
                assert(sector_proof.inclusion_proofs[0] == pv.response(0, i)->0);
                assert(pv.accepted(0, i));
                assert(vf.sector(0, i) == pv.sectors[i]);
                assert((0 * per + i) * cc + 0 == i) by (nonlinear_arith)
                    requires
                        cc == 1,
                ;
                assert(vf.inclusion_verdict(0, i, 0) is Pass);
                vf.lemma_inclusions_stop(0, i, 0, 1);
            }
            vf.lemma_sectors_stop(0, 0, per);
            vf.lemma_partitions_stop(0, 1);
        },
    }
}

} // verus!
