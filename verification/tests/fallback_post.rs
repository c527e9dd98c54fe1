use fallback_post::domain::{Domain, NODE_SIZE};
use fallback_post::error::Error;
use fallback_post::merkle::{expected_len, MerkleProof, PathElement, TreeHandle, TreeShape};
use fallback_post::params::{PoStShape, PublicParams};
use fallback_post::types::{FallbackPoSt, PrivateInputs, PrivateSector, PublicInputs, PublicSector};

use filecoin_hashers::poseidon::{PoseidonDomain, PoseidonFunction, PoseidonHasher};
use filecoin_hashers::{Domain as HasherDomain, HashFunction};
use generic_array::typenum::{U0, U2, U4, U8};
use rand::SeedableRng;
use rand_xorshift::XorShiftRng;
use storage_proofs_core::merkle::{
    generate_tree, get_base_tree_count, LCTree, MerkleProofTrait, MerkleTreeTrait,
};

const TEST_SEED: [u8; 16] = [
    0x59, 0x62, 0xbe, 0x5d, 0x76, 0x3d, 0x31, 0x8d, 0x17, 0xdb, 0x37, 0x32, 0x54, 0x06, 0xbc, 0xe5,
];

/// A sector tree on disk, seen through what the prover needs of it.
struct DiskTree<'a, Tree: MerkleTreeTrait> {
    tree: &'a Tree,
}

fn domain(d: PoseidonDomain) -> Domain {
    Domain { bytes: d.into() }
}

impl<'a, Tree: MerkleTreeTrait<Hasher = PoseidonHasher>> TreeHandle for DiskTree<'a, Tree> {
    fn leafs(&self) -> usize {
        self.tree.leaves()
    }

    fn gen_cached_proof(
        &self,
        leaf_index: usize,
        rows_to_discard: Option<usize>,
    ) -> Option<MerkleProof> {
        let proof = self.tree.gen_cached_proof(leaf_index, rows_to_discard).ok()?;
        Some(MerkleProof {
            root: domain(proof.root()),
            leaf: domain(proof.leaf()),
            path: proof
                .path()
                .into_iter()
                .map(|(hashes, index)| PathElement {
                    hashes: hashes.into_iter().map(domain).collect(),
                    index,
                })
                .collect(),
        })
    }
}

fn test_fallback_post<Tree: 'static + MerkleTreeTrait<Hasher = PoseidonHasher>>(
    shape: TreeShape,
    total_sector_count: usize,
    sector_count: usize,
    partitions: usize,
) where
    Tree::Store: 'static,
{
    let rng = &mut XorShiftRng::from_seed(TEST_SEED);

    let leaves = 64 * get_base_tree_count::<Tree>();
    let sector_size = leaves * NODE_SIZE;

    let pub_params = PublicParams {
        sector_size: sector_size as u64,
        challenge_count: 10,
        sector_count,
        shape: PoStShape::Window,
    };

    let randomness = domain(PoseidonDomain::random(rng));
    let prover_id = domain(PoseidonDomain::random(rng));

    let temp_dir = tempfile::tempdir().unwrap();
    let temp_path = temp_dir.path();

    let mut pub_sectors = Vec::new();
    let mut priv_sectors = Vec::new();

    let trees = (0..total_sector_count)
        .map(|_| generate_tree::<Tree, _>(rng, leaves, Some(temp_path.to_path_buf())).1)
        .collect::<Vec<_>>();
    let handles = trees.iter().map(|tree| DiskTree { tree }).collect::<Vec<_>>();

    for (i, tree) in trees.iter().enumerate() {
        let comm_c = PoseidonDomain::random(rng);
        let comm_r_last = tree.root();

        priv_sectors.push(PrivateSector {
            tree: &handles[i],
            comm_c: domain(comm_c),
            comm_r_last: domain(comm_r_last),
        });

        let comm_r = PoseidonFunction::hash2(&comm_c, &comm_r_last);
        pub_sectors.push(PublicSector {
            id: (i as u64).into(),
            comm_r: domain(comm_r),
        });
    }

    let pub_inputs = PublicInputs {
        randomness,
        prover_id,
        sectors: &pub_sectors,
        k: None,
    };

    let priv_inputs = PrivateInputs {
        sectors: &priv_sectors[..],
    };

    let post = FallbackPoSt { shape };

    let proof = post
        .prove_all_partitions(&pub_params, &pub_inputs, &priv_inputs, partitions)
        .expect("proving failed");

    let is_valid = post
        .verify_all_partitions(&pub_params, &pub_inputs, &proof)
        .expect("verification failed");

    assert!(is_valid);
}

fn test_invalid_fallback_post<Tree: 'static + MerkleTreeTrait<Hasher = PoseidonHasher>>(
    shape: TreeShape,
    total_sector_count: usize,
    sector_count: usize,
    partitions: usize,
) where
    Tree::Store: 'static,
{
    let rng = &mut XorShiftRng::from_seed(TEST_SEED);

    let leaves = 64 * get_base_tree_count::<Tree>();
    let sector_size = leaves * NODE_SIZE;

    let pub_params = PublicParams {
        sector_size: sector_size as u64,
        challenge_count: 10,
        sector_count,
        shape: PoStShape::Window,
    };

    let randomness = domain(PoseidonDomain::random(rng));
    let prover_id = domain(PoseidonDomain::random(rng));

    let temp_dir = tempfile::tempdir().unwrap();
    let temp_path = temp_dir.path();

    let mut pub_sectors = Vec::new();
    let mut priv_sectors = Vec::new();

    let mut trees = Vec::new();

    let mut faulty_sectors = Vec::<u64>::new();

    for _i in 0..total_sector_count {
        let (_data, tree) = generate_tree::<Tree, _>(rng, leaves, Some(temp_path.to_path_buf()));
        trees.push(tree);
    }

    let faulty_denominator = 3;

    let (_data, wrong_tree) = generate_tree::<Tree, _>(rng, leaves, Some(temp_path.to_path_buf()));
    let wrong_handle = DiskTree { tree: &wrong_tree };
    let handles = trees.iter().map(|tree| DiskTree { tree }).collect::<Vec<_>>();

    for (i, tree) in trees.iter().enumerate() {
        let make_faulty = i % faulty_denominator == 0;

        let comm_c = PoseidonDomain::random(rng);
        let comm_r_last = tree.root();

        priv_sectors.push(PrivateSector {
            tree: if make_faulty { &wrong_handle } else { &handles[i] },
            comm_c: domain(comm_c),
            comm_r_last: domain(comm_r_last),
        });

        let comm_r = PoseidonFunction::hash2(&comm_c, &comm_r_last);

        if make_faulty {
            faulty_sectors.push((i as u64).into());
        }

        pub_sectors.push(PublicSector {
            id: (i as u64).into(),
            comm_r: domain(comm_r),
        });
    }

    let pub_inputs = PublicInputs {
        randomness,
        prover_id,
        sectors: &pub_sectors,
        k: None,
    };

    let priv_inputs = PrivateInputs {
        sectors: &priv_sectors[..],
    };

    let post = FallbackPoSt { shape };

    let proof = post.prove_all_partitions(&pub_params, &pub_inputs, &priv_inputs, partitions);

    match proof {
        Ok(proof) => {
            let is_valid = post
                .verify_all_partitions(&pub_params, &pub_inputs, &proof)
                .expect("verification failed");
            assert!(!is_valid, "PoSt returned a valid proof with invalid input");
        }
        Err(Error::FaultySectors(sector_ids)) => assert_eq!(faulty_sectors, sector_ids),
        Err(_) => panic!("PoSt failed to return FaultySectors error."),
    };
}

#[test]
fn fallback_post_poseidon_single_partition_matching_base_8() {
    test_fallback_post::<LCTree<PoseidonHasher, U8, U0, U0>>(TreeShape::Base8, 5, 5, 1);
}

#[test]
fn invalid_fallback_post_poseidon_single_partition_matching_base_8() {
    test_invalid_fallback_post::<LCTree<PoseidonHasher, U8, U0, U0>>(TreeShape::Base8, 5, 5, 1);
}

#[test]
fn fallback_post_poseidon_single_partition_smaller_base_8() {
    test_fallback_post::<LCTree<PoseidonHasher, U8, U0, U0>>(TreeShape::Base8, 3, 5, 1);
}

#[test]
fn invalid_fallback_post_poseidon_single_partition_smaller_base_8() {
    test_invalid_fallback_post::<LCTree<PoseidonHasher, U8, U0, U0>>(TreeShape::Base8, 3, 5, 1);
}

#[test]
fn fallback_post_poseidon_two_partitions_matching_base_8() {
    test_fallback_post::<LCTree<PoseidonHasher, U8, U0, U0>>(TreeShape::Base8, 4, 2, 2);
}

#[test]
fn invalid_fallback_post_poseidon_two_partitions_matching_base_8() {
    test_invalid_fallback_post::<LCTree<PoseidonHasher, U8, U0, U0>>(TreeShape::Base8, 4, 2, 2);
}

#[test]
fn fallback_post_poseidon_two_partitions_smaller_base_8() {
    test_fallback_post::<LCTree<PoseidonHasher, U8, U0, U0>>(TreeShape::Base8, 5, 3, 2);
}

#[test]
fn invalid_fallback_post_poseidon_two_partitions_smaller_base_8() {
    test_invalid_fallback_post::<LCTree<PoseidonHasher, U8, U0, U0>>(TreeShape::Base8, 5, 3, 2);
}

#[test]
fn fallback_post_poseidon_single_partition_matching_sub_8_4() {
    test_fallback_post::<LCTree<PoseidonHasher, U8, U4, U0>>(TreeShape::Sub8x4, 5, 5, 1);
}

#[test]
fn invalid_fallback_post_poseidon_single_partition_matching_sub_8_4() {
    test_invalid_fallback_post::<LCTree<PoseidonHasher, U8, U4, U0>>(TreeShape::Sub8x4, 5, 5, 1);
}

#[test]
fn fallback_post_poseidon_single_partition_smaller_sub_8_4() {
    test_fallback_post::<LCTree<PoseidonHasher, U8, U4, U0>>(TreeShape::Sub8x4, 3, 5, 1);
}

#[test]
fn invalid_fallback_post_poseidon_single_partition_smaller_sub_8_4() {
    test_invalid_fallback_post::<LCTree<PoseidonHasher, U8, U4, U0>>(TreeShape::Sub8x4, 3, 5, 1);
}

#[test]
fn fallback_post_poseidon_two_partitions_matching_sub_8_4() {
    test_fallback_post::<LCTree<PoseidonHasher, U8, U4, U0>>(TreeShape::Sub8x4, 4, 2, 2);
}

#[test]
fn invalid_fallback_post_poseidon_two_partitions_matching_sub_8_4() {
    test_invalid_fallback_post::<LCTree<PoseidonHasher, U8, U4, U0>>(TreeShape::Sub8x4, 4, 2, 2);
}

#[test]
fn fallback_post_poseidon_two_partitions_matching_sub_8_8() {
    test_fallback_post::<LCTree<PoseidonHasher, U8, U8, U0>>(TreeShape::Sub8x8, 4, 2, 2);
}

#[test]
fn invalid_fallback_post_poseidon_two_partitions_matching_sub_8_8() {
    test_invalid_fallback_post::<LCTree<PoseidonHasher, U8, U8, U0>>(TreeShape::Sub8x8, 4, 2, 2);
}

#[test]
fn fallback_post_poseidon_two_partitions_smaller_sub_8_4() {
    test_fallback_post::<LCTree<PoseidonHasher, U8, U4, U0>>(TreeShape::Sub8x4, 5, 3, 2);
}

#[test]
fn invalid_fallback_post_poseidon_two_partitions_smaller_sub_8_4() {
    test_invalid_fallback_post::<LCTree<PoseidonHasher, U8, U4, U0>>(TreeShape::Sub8x4, 5, 3, 2);
}

#[test]
fn fallback_post_poseidon_two_partitions_smaller_sub_8_8() {
    test_fallback_post::<LCTree<PoseidonHasher, U8, U8, U0>>(TreeShape::Sub8x8, 5, 3, 2);
}

#[test]
fn invalid_fallback_post_poseidon_two_partitions_smaller_sub_8_8() {
    test_invalid_fallback_post::<LCTree<PoseidonHasher, U8, U8, U0>>(TreeShape::Sub8x8, 5, 3, 2);
}

#[test]
fn fallback_post_poseidon_single_partition_matching_top_8_4_2() {
    test_fallback_post::<LCTree<PoseidonHasher, U8, U4, U2>>(TreeShape::Top8x4x2, 5, 5, 1);
}

#[test]
fn invalid_fallback_post_poseidon_single_partition_matching_top_8_4_2() {
    test_invalid_fallback_post::<LCTree<PoseidonHasher, U8, U4, U2>>(TreeShape::Top8x4x2, 5, 5, 1);
}

#[test]
fn fallback_post_poseidon_single_partition_matching_top_8_8_2() {
    test_fallback_post::<LCTree<PoseidonHasher, U8, U8, U2>>(TreeShape::Top8x8x2, 5, 5, 1);
}

#[test]
fn invalid_fallback_post_poseidon_single_partition_matching_top_8_8_2() {
    test_invalid_fallback_post::<LCTree<PoseidonHasher, U8, U8, U2>>(TreeShape::Top8x8x2, 5, 5, 1);
}

#[test]
fn fallback_post_poseidon_single_partition_smaller_top_8_4_2() {
    test_fallback_post::<LCTree<PoseidonHasher, U8, U4, U2>>(TreeShape::Top8x4x2, 3, 5, 1);
}

#[test]
fn invalid_fallback_post_poseidon_single_partition_smaller_top_8_4_2() {
    test_invalid_fallback_post::<LCTree<PoseidonHasher, U8, U4, U2>>(TreeShape::Top8x4x2, 3, 5, 1);
}

#[test]
fn fallback_post_poseidon_two_partitions_matching_top_8_4_2() {
    test_fallback_post::<LCTree<PoseidonHasher, U8, U4, U2>>(TreeShape::Top8x4x2, 4, 2, 2);
}

#[test]
fn invalid_fallback_post_poseidon_two_partitions_matching_top_8_4_2() {
    test_invalid_fallback_post::<LCTree<PoseidonHasher, U8, U4, U2>>(TreeShape::Top8x4x2, 4, 2, 2);
}

#[test]
fn fallback_post_poseidon_two_partitions_smaller_top_8_4_2() {
    test_fallback_post::<LCTree<PoseidonHasher, U8, U4, U2>>(TreeShape::Top8x4x2, 5, 3, 2);
}

#[test]
fn invalid_fallback_post_poseidon_two_partitions_smaller_top_8_4_2() {
    test_invalid_fallback_post::<LCTree<PoseidonHasher, U8, U4, U2>>(TreeShape::Top8x4x2, 5, 3, 2);
}

#[test]
fn fallback_post_poseidon_two_partitions_smaller_top_8_8_2() {
    test_fallback_post::<LCTree<PoseidonHasher, U8, U8, U2>>(TreeShape::Top8x8x2, 5, 3, 2);
}

#[test]
fn invalid_fallback_post_poseidon_two_partitions_smaller_top_8_8_2() {
    test_invalid_fallback_post::<LCTree<PoseidonHasher, U8, U8, U2>>(TreeShape::Top8x8x2, 5, 3, 2);
}

// Trees, commitments and public sectors of a run, for the tests below.

type Base = LCTree<PoseidonHasher, U8, U0, U0>;

struct Fixture<Tree: MerkleTreeTrait> {
    pub_params: PublicParams,
    randomness: Domain,
    prover_id: Domain,
    trees: Vec<Tree>,
    comm_cs: Vec<Domain>,
    pub_sectors: Vec<PublicSector>,
    _dir: tempfile::TempDir,
}

fn fixture<Tree: 'static + MerkleTreeTrait<Hasher = PoseidonHasher>>(
    shape: PoStShape,
    ids: &[u64],
    sector_count: usize,
    challenge_count: usize,
) -> Fixture<storage_proofs_core::merkle::ResTree<Tree>>
where
    Tree::Store: 'static,
{
    let rng = &mut XorShiftRng::from_seed(TEST_SEED);
    let leaves = 64 * get_base_tree_count::<Tree>();
    let pub_params = PublicParams {
        sector_size: (leaves * NODE_SIZE) as u64,
        challenge_count,
        sector_count,
        shape,
    };
    let randomness = domain(PoseidonDomain::random(rng));
    let prover_id = domain(PoseidonDomain::random(rng));
    let dir = tempfile::tempdir().unwrap();
    let mut trees = Vec::new();
    let mut comm_cs = Vec::new();
    let mut pub_sectors = Vec::new();
    for id in ids {
        let tree = generate_tree::<Tree, _>(rng, leaves, Some(dir.path().to_path_buf())).1;
        let comm_c = PoseidonDomain::random(rng);
        let comm_r = PoseidonFunction::hash2(&comm_c, &tree.root());
        pub_sectors.push(PublicSector { id: *id, comm_r: domain(comm_r) });
        comm_cs.push(domain(comm_c));
        trees.push(tree);
    }
    Fixture { pub_params, randomness, prover_id, trees, comm_cs, pub_sectors, _dir: dir }
}

/// A tree that answers, or one that fails on every leaf.
enum AnyTree<'a, Tree: MerkleTreeTrait> {
    Sound(DiskTree<'a, Tree>),
    Broken,
}

impl<'a, Tree: MerkleTreeTrait<Hasher = PoseidonHasher>> TreeHandle for AnyTree<'a, Tree> {
    fn leafs(&self) -> usize {
        match self {
            AnyTree::Sound(tree) => tree.leafs(),
            AnyTree::Broken => 64,
        }
    }

    fn gen_cached_proof(
        &self,
        leaf_index: usize,
        rows_to_discard: Option<usize>,
    ) -> Option<MerkleProof> {
        match self {
            AnyTree::Sound(tree) => tree.gen_cached_proof(leaf_index, rows_to_discard),
            AnyTree::Broken => None,
        }
    }
}

fn sound_handles<Tree: MerkleTreeTrait>(f: &Fixture<Tree>) -> Vec<AnyTree<'_, Tree>> {
    f.trees.iter().map(|tree| AnyTree::Sound(DiskTree { tree })).collect()
}

fn private<'a, Tree: MerkleTreeTrait<Hasher = PoseidonHasher>>(
    f: &'a Fixture<Tree>,
    handles: &'a [AnyTree<'a, Tree>],
) -> Vec<PrivateSector<'a, AnyTree<'a, Tree>>> {
    handles
        .iter()
        .enumerate()
        .map(|(i, tree)| PrivateSector {
            tree,
            comm_c: f.comm_cs[i],
            comm_r_last: domain(f.trees[i].root()),
        })
        .collect()
}

fn public<'a, Tree: MerkleTreeTrait>(f: &'a Fixture<Tree>) -> PublicInputs<'a> {
    PublicInputs {
        randomness: f.randomness,
        prover_id: f.prover_id,
        sectors: &f.pub_sectors,
        k: None,
    }
}

const BASE: FallbackPoSt = FallbackPoSt { shape: TreeShape::Base8 };

#[test]
fn short_chunk_is_padded_with_its_last_sector_proof() {
    let f = fixture::<Base>(PoStShape::Window, &[0, 1, 2], 5, 10);
    let handles = sound_handles(&f);
    let priv_sectors = private(&f, &handles);
    let proofs = BASE
        .prove_all_partitions(&f.pub_params, &public(&f), &PrivateInputs { sectors: &priv_sectors }, 1)
        .unwrap();
    assert_eq!(proofs.len(), 1);
    let sectors = &proofs[0].sectors;
    assert_eq!(sectors.len(), 5);
    for sector in sectors {
        assert_eq!(sector.inclusion_proofs.len(), 10);
    }
    assert_ne!(sectors[1], sectors[2]);
    assert_eq!(sectors[3], sectors[2]);
    assert_eq!(sectors[4], sectors[2]);
    for (i, sector) in sectors.iter().take(3).enumerate() {
        assert_eq!(sector.comm_c, f.comm_cs[i]);
        assert_eq!(sector.comm_r_last, domain(f.trees[i].root()));
    }
    assert_eq!(BASE.verify_all_partitions(&f.pub_params, &public(&f), &proofs), Ok(true));
}

#[test]
fn full_chunks_are_not_padded() {
    let f = fixture::<Base>(PoStShape::Window, &[0, 1, 2, 3], 2, 4);
    let handles = sound_handles(&f);
    let priv_sectors = private(&f, &handles);
    let proofs = BASE
        .prove_all_partitions(&f.pub_params, &public(&f), &PrivateInputs { sectors: &priv_sectors }, 2)
        .unwrap();
    assert_eq!(proofs.len(), 2);
    for (j, proof) in proofs.iter().enumerate() {
        assert_eq!(proof.sectors.len(), 2);
        for (i, sector) in proof.sectors.iter().enumerate() {
            assert_eq!(sector.comm_c, f.comm_cs[2 * j + i]);
            assert_eq!(sector.inclusion_proofs.len(), 4);
        }
    }
    assert_eq!(BASE.verify_all_partitions(&f.pub_params, &public(&f), &proofs), Ok(true));
}

#[test]
fn only_the_last_partition_is_padded() {
    let f = fixture::<Base>(PoStShape::Window, &[0, 1, 2, 3, 4], 3, 2);
    let handles = sound_handles(&f);
    let priv_sectors = private(&f, &handles);
    let proofs = BASE
        .prove_all_partitions(&f.pub_params, &public(&f), &PrivateInputs { sectors: &priv_sectors }, 2)
        .unwrap();
    assert_eq!(proofs.len(), 2);
    assert_eq!(proofs[0].sectors.len(), 3);
    assert_eq!(proofs[1].sectors.len(), 3);
    assert_eq!(proofs[1].sectors[0].comm_c, f.comm_cs[3]);
    assert_eq!(proofs[1].sectors[1].comm_c, f.comm_cs[4]);
    assert_eq!(proofs[1].sectors[2], proofs[1].sectors[1]);
    assert_eq!(BASE.verify_all_partitions(&f.pub_params, &public(&f), &proofs), Ok(true));
}

#[test]
fn partitions_that_are_not_needed_are_not_made() {
    let f = fixture::<Base>(PoStShape::Window, &[0, 1], 2, 2);
    let handles = sound_handles(&f);
    let priv_sectors = private(&f, &handles);
    let proofs = BASE
        .prove_all_partitions(&f.pub_params, &public(&f), &PrivateInputs { sectors: &priv_sectors }, 4)
        .unwrap();
    assert_eq!(proofs.len(), 1);
    assert_eq!(BASE.verify_all_partitions(&f.pub_params, &public(&f), &proofs), Ok(true));
}

#[test]
fn no_sectors_give_no_partitions() {
    let f = fixture::<Base>(PoStShape::Window, &[], 2, 2);
    let handles = sound_handles(&f);
    let priv_sectors = private(&f, &handles);
    let proofs = BASE
        .prove_all_partitions(&f.pub_params, &public(&f), &PrivateInputs { sectors: &priv_sectors }, 0)
        .unwrap();
    assert!(proofs.is_empty());
    assert_eq!(BASE.verify_all_partitions(&f.pub_params, &public(&f), &proofs), Ok(true));
}

#[test]
fn inclusion_proofs_come_in_the_order_of_the_challenges() {
    let f = fixture::<Base>(PoStShape::Window, &[42], 1, 6);
    let handles = sound_handles(&f);
    let priv_sectors = private(&f, &handles);
    let proofs = BASE
        .prove_all_partitions(&f.pub_params, &public(&f), &PrivateInputs { sectors: &priv_sectors }, 1)
        .unwrap();
    let challenges =
        fallback_post::challenge::generate_leaf_challenges(&f.pub_params, f.randomness, 42, 6);
    for (i, proof) in proofs[0].sectors[0].inclusion_proofs.iter().enumerate() {
        assert!(proof.validate(TreeShape::Base8, challenges[i] as usize));
        assert_eq!(proof.root, domain(f.trees[0].root()));
    }
}

#[test]
fn proving_twice_gives_the_same_proofs() {
    let f = fixture::<Base>(PoStShape::Window, &[0, 1, 2], 2, 3);
    let handles = sound_handles(&f);
    let priv_sectors = private(&f, &handles);
    let priv_inputs = PrivateInputs { sectors: &priv_sectors[..] };
    let first = BASE.prove_all_partitions(&f.pub_params, &public(&f), &priv_inputs, 2);
    let second = BASE.prove_all_partitions(&f.pub_params, &public(&f), &priv_inputs, 2);
    assert!(first.is_ok());
    assert_eq!(first, second);
}

#[test]
fn faulty_sectors_are_listed_in_ascending_order() {
    let f = fixture::<Base>(PoStShape::Window, &[9, 7, 5, 3, 1], 5, 3);
    let mut handles = sound_handles(&f);
    handles[0] = AnyTree::Broken;
    handles[3] = AnyTree::Broken;
    let priv_sectors = private(&f, &handles);
    let result = BASE.prove_all_partitions(
        &f.pub_params,
        &public(&f),
        &PrivateInputs { sectors: &priv_sectors },
        1,
    );
    assert_eq!(result, Err(Error::FaultySectors(vec![3, 9])));
}

#[test]
fn a_sector_id_that_fails_twice_is_listed_once() {
    let f = fixture::<Base>(PoStShape::Window, &[4, 4, 2], 3, 3);
    let handles = vec![AnyTree::Broken, AnyTree::Broken, AnyTree::Broken];
    let priv_sectors = private(&f, &handles);
    let result = BASE.prove_all_partitions(
        &f.pub_params,
        &public(&f),
        &PrivateInputs { sectors: &priv_sectors },
        1,
    );
    assert_eq!(result, Err(Error::FaultySectors(vec![2, 4])));
}

#[test]
fn a_wrong_comm_r_last_makes_the_sector_faulty() {
    let f = fixture::<Base>(PoStShape::Window, &[0, 1, 2], 3, 3);
    let handles = sound_handles(&f);
    let mut priv_sectors = private(&f, &handles);
    priv_sectors[1].comm_r_last = domain(f.trees[0].root());
    let result = BASE.prove_all_partitions(
        &f.pub_params,
        &public(&f),
        &PrivateInputs { sectors: &priv_sectors },
        1,
    );
    assert_eq!(result, Err(Error::FaultySectors(vec![1])));
}

#[test]
fn an_unbound_comm_r_makes_the_sector_faulty() {
    let mut f = fixture::<Base>(PoStShape::Window, &[10, 11, 12], 3, 3);
    f.pub_sectors[2].comm_r = f.pub_sectors[0].comm_r;
    let handles = sound_handles(&f);
    let priv_sectors = private(&f, &handles);
    let result = BASE.prove_all_partitions(
        &f.pub_params,
        &public(&f),
        &PrivateInputs { sectors: &priv_sectors },
        1,
    );
    assert_eq!(result, Err(Error::FaultySectors(vec![12])));
}

#[test]
fn commitments_that_are_no_scalars_make_the_sector_faulty() {
    let f = fixture::<Base>(PoStShape::Window, &[0, 1], 2, 3);
    let handles = sound_handles(&f);
    let mut priv_sectors = private(&f, &handles);
    priv_sectors[0].comm_c = Domain { bytes: [0xff; 32] };
    let result = BASE.prove_all_partitions(
        &f.pub_params,
        &public(&f),
        &PrivateInputs { sectors: &priv_sectors },
        1,
    );
    assert_eq!(result, Err(Error::FaultySectors(vec![0])));
}

#[test]
fn a_tree_of_another_shape_makes_the_sector_faulty() {
    let f = fixture::<Base>(PoStShape::Window, &[0], 1, 3);
    let handles = sound_handles(&f);
    let priv_sectors = private(&f, &handles);
    let other = FallbackPoSt { shape: TreeShape::Top8x4x2 };
    let result = other.prove_all_partitions(
        &f.pub_params,
        &public(&f),
        &PrivateInputs { sectors: &priv_sectors },
        1,
    );
    assert_eq!(result, Err(Error::FaultySectors(vec![0])));
}

#[test]
fn different_numbers_of_sectors_are_refused() {
    let f = fixture::<Base>(PoStShape::Window, &[0, 1], 2, 3);
    let handles = sound_handles(&f);
    let priv_sectors = private(&f, &handles);
    let result = BASE.prove_all_partitions(
        &f.pub_params,
        &public(&f),
        &PrivateInputs { sectors: &priv_sectors[..1] },
        1,
    );
    assert_eq!(result, Err(Error::SectorCountMismatch { private: 1, public: 2 }));
}

#[test]
fn more_sectors_than_the_partitions_hold_are_refused() {
    let f = fixture::<Base>(PoStShape::Window, &[0, 1, 2], 2, 3);
    let handles = sound_handles(&f);
    let priv_sectors = private(&f, &handles);
    let priv_inputs = PrivateInputs { sectors: &priv_sectors[..] };
    assert_eq!(
        BASE.prove_all_partitions(&f.pub_params, &public(&f), &priv_inputs, 1),
        Err(Error::TooManySectors { sectors: 3, partitions: 1, sectors_per_partition: 2 })
    );
    assert_eq!(
        BASE.prove_all_partitions(&f.pub_params, &public(&f), &priv_inputs, 0),
        Err(Error::TooManySectors { sectors: 3, partitions: 0, sectors_per_partition: 2 })
    );
    assert!(BASE.prove_all_partitions(&f.pub_params, &public(&f), &priv_inputs, 2).is_ok());
    assert!(BASE
        .prove_all_partitions(&f.pub_params, &public(&f), &priv_inputs, usize::MAX)
        .is_ok());
}

fn winning_fixture(challenges: usize) -> Fixture<Base> {
    let mut f = fixture::<Base>(PoStShape::Winning, &[77], challenges, 1);
    let tree_count = f.pub_sectors.len();
    assert_eq!(tree_count, 1);
    for _ in 1..challenges {
        f.pub_sectors.push(f.pub_sectors[0]);
    }
    f
}

fn winning_private<'a>(
    f: &'a Fixture<Base>,
    handle: &'a AnyTree<'a, Base>,
) -> Vec<PrivateSector<'a, AnyTree<'a, Base>>> {
    f.pub_sectors
        .iter()
        .map(|_| PrivateSector {
            tree: handle,
            comm_c: f.comm_cs[0],
            comm_r_last: domain(f.trees[0].root()),
        })
        .collect()
}

#[test]
fn winning_proof_has_a_sector_proof_for_each_challenge() {
    let f = winning_fixture(3);
    let handle = AnyTree::Sound(DiskTree { tree: &f.trees[0] });
    let priv_sectors = winning_private(&f, &handle);
    let proofs = BASE
        .prove_all_partitions(&f.pub_params, &public(&f), &PrivateInputs { sectors: &priv_sectors }, 1)
        .unwrap();
    assert_eq!(proofs.len(), 1);
    assert_eq!(proofs[0].sectors.len(), 3);
    let challenges =
        fallback_post::challenge::generate_leaf_challenges(&f.pub_params, f.randomness, 77, 3);
    for (i, sector) in proofs[0].sectors.iter().enumerate() {
        assert_eq!(sector.inclusion_proofs.len(), 1);
        assert!(sector.inclusion_proofs[0].validate(TreeShape::Base8, challenges[i] as usize));
        assert_eq!(sector.comm_c, f.comm_cs[0]);
    }
    assert_eq!(BASE.verify_all_partitions(&f.pub_params, &public(&f), &proofs), Ok(true));
}

#[test]
fn winning_proof_with_a_broken_tree_reports_the_sector_once() {
    let f = winning_fixture(4);
    let handle = AnyTree::Broken;
    let priv_sectors = winning_private(&f, &handle);
    let result = BASE.prove_all_partitions(
        &f.pub_params,
        &public(&f),
        &PrivateInputs { sectors: &priv_sectors },
        1,
    );
    assert_eq!(result, Err(Error::FaultySectors(vec![77])));
}

#[test]
fn winning_proof_needs_as_many_sectors_as_challenges() {
    let mut f = winning_fixture(3);
    f.pub_params.sector_count = 2;
    let handle = AnyTree::Sound(DiskTree { tree: &f.trees[0] });
    let priv_sectors = winning_private(&f, &handle);
    let result = BASE.prove_all_partitions(
        &f.pub_params,
        &public(&f),
        &PrivateInputs { sectors: &priv_sectors },
        1,
    );
    assert_eq!(result, Err(Error::WinningChallengeCount { sectors: 3 }));
}

#[test]
fn winning_proof_needs_a_sector() {
    let f = fixture::<Base>(PoStShape::Winning, &[], 0, 1);
    let handles = sound_handles(&f);
    let priv_sectors = private(&f, &handles);
    let result = BASE.prove_all_partitions(
        &f.pub_params,
        &public(&f),
        &PrivateInputs { sectors: &priv_sectors },
        1,
    );
    assert_eq!(result, Err(Error::WinningChallengeCount { sectors: 0 }));
}

#[test]
fn winning_proof_needs_one_challenge_per_sector() {
    let mut f = winning_fixture(2);
    f.pub_params.challenge_count = 2;
    let handle = AnyTree::Sound(DiskTree { tree: &f.trees[0] });
    let priv_sectors = winning_private(&f, &handle);
    let result = BASE.prove_all_partitions(
        &f.pub_params,
        &public(&f),
        &PrivateInputs { sectors: &priv_sectors },
        1,
    );
    assert_eq!(result, Err(Error::WinningShape { challenge_count: 2 }));
}

#[test]
fn prove_hands_out_the_single_partition() {
    let f = fixture::<Base>(PoStShape::Window, &[0, 1], 3, 2);
    let handles = sound_handles(&f);
    let priv_sectors = private(&f, &handles);
    let priv_inputs = PrivateInputs { sectors: &priv_sectors[..] };
    let all = BASE.prove_all_partitions(&f.pub_params, &public(&f), &priv_inputs, 1).unwrap();
    let one = BASE.prove(&f.pub_params, &public(&f), &priv_inputs).unwrap();
    assert_eq!(all, vec![one]);
    let mut with_index = public(&f);
    with_index.k = Some(0);
    assert_eq!(BASE.prove(&f.pub_params, &with_index, &priv_inputs).unwrap(), all[0]);
}

#[test]
fn prove_reports_what_proving_all_partitions_reports() {
    let f = fixture::<Base>(PoStShape::Window, &[0, 1], 1, 2);
    let handles = sound_handles(&f);
    let priv_sectors = private(&f, &handles);
    let priv_inputs = PrivateInputs { sectors: &priv_sectors[..] };
    assert_eq!(
        BASE.prove(&f.pub_params, &public(&f), &priv_inputs),
        Err(Error::TooManySectors { sectors: 2, partitions: 1, sectors_per_partition: 1 })
    );
}

// The single-sector prover.

#[test]
fn vanilla_proof_holds_an_inclusion_proof_for_each_challenge() {
    let f = fixture::<Base>(PoStShape::Window, &[3], 1, 1);
    let handles = sound_handles(&f);
    let priv_sectors = private(&f, &handles);
    let challenges = [0u64, 63, 17, 17];
    let proof = fallback_post::prover::vanilla_proof(
        TreeShape::Base8,
        3,
        &PrivateInputs { sectors: &priv_sectors },
        &challenges,
    )
    .unwrap();
    assert_eq!(proof.sectors.len(), 1);
    let sector = &proof.sectors[0];
    assert_eq!(sector.comm_c, f.comm_cs[0]);
    assert_eq!(sector.comm_r_last, domain(f.trees[0].root()));
    assert_eq!(sector.inclusion_proofs.len(), 4);
    for (i, challenge) in challenges.iter().enumerate() {
        assert!(sector.inclusion_proofs[i].validate(TreeShape::Base8, *challenge as usize));
    }
    assert_eq!(sector.inclusion_proofs[2], sector.inclusion_proofs[3]);
}

#[test]
fn vanilla_proof_without_challenges_is_empty() {
    let f = fixture::<Base>(PoStShape::Window, &[3], 1, 1);
    let handles = sound_handles(&f);
    let priv_sectors = private(&f, &handles);
    let proof = fallback_post::prover::vanilla_proof(
        TreeShape::Base8,
        3,
        &PrivateInputs { sectors: &priv_sectors },
        &[],
    )
    .unwrap();
    assert_eq!(proof.sectors.len(), 1);
    assert!(proof.sectors[0].inclusion_proofs.is_empty());
}

#[test]
fn vanilla_proof_takes_one_sector_only() {
    let f = fixture::<Base>(PoStShape::Window, &[3, 4], 1, 1);
    let handles = sound_handles(&f);
    let priv_sectors = private(&f, &handles);
    assert_eq!(
        fallback_post::prover::vanilla_proof(
            TreeShape::Base8,
            3,
            &PrivateInputs { sectors: &priv_sectors },
            &[1],
        ),
        Err(Error::NotSingleSector { sectors: 2 })
    );
    assert_eq!(
        fallback_post::prover::vanilla_proof(
            TreeShape::Base8,
            3,
            &PrivateInputs { sectors: &priv_sectors[..0] },
            &[1],
        ),
        Err(Error::NotSingleSector { sectors: 0 })
    );
}

#[test]
fn vanilla_proof_fails_on_a_wrong_root() {
    let f = fixture::<Base>(PoStShape::Window, &[3, 4], 1, 1);
    let handles = sound_handles(&f);
    let mut priv_sectors = private(&f, &handles);
    priv_sectors[0].comm_r_last = domain(f.trees[1].root());
    assert_eq!(
        fallback_post::prover::vanilla_proof(
            TreeShape::Base8,
            3,
            &PrivateInputs { sectors: &priv_sectors[..1] },
            &[5, 6],
        ),
        Err(Error::InvalidVanillaProof { sector: 3 })
    );
}

#[test]
fn vanilla_proof_fails_on_a_broken_tree() {
    let f = fixture::<Base>(PoStShape::Window, &[8], 1, 1);
    let handles = vec![AnyTree::Broken];
    let priv_sectors = private(&f, &handles);
    assert_eq!(
        fallback_post::prover::vanilla_proof(
            TreeShape::Base8,
            8,
            &PrivateInputs { sectors: &priv_sectors },
            &[5],
        ),
        Err(Error::TreeFailure { sector: 8 })
    );
}

#[test]
fn vanilla_proof_fails_on_a_leaf_outside_the_tree() {
    let f = fixture::<Base>(PoStShape::Window, &[8], 1, 1);
    let handles = sound_handles(&f);
    let priv_sectors = private(&f, &handles);
    let result = fallback_post::prover::vanilla_proof(
        TreeShape::Base8,
        8,
        &PrivateInputs { sectors: &priv_sectors },
        &[1, 64],
    );
    assert!(matches!(
        result,
        Err(Error::TreeFailure { sector: 8 }) | Err(Error::InvalidVanillaProof { sector: 8 })
    ));
}

// Putting proofs together from given answers.

#[test]
fn missing_answers_count_as_failures_of_the_tree() {
    let f = fixture::<Base>(PoStShape::Window, &[6, 2], 2, 3);
    let handles = sound_handles(&f);
    let priv_sectors = private(&f, &handles);
    let result = BASE.assemble_partitions(
        &f.pub_params,
        &public(&f),
        &PrivateInputs { sectors: &priv_sectors },
        &Vec::new(),
        1,
    );
    assert_eq!(result, Err(Error::FaultySectors(vec![2, 6])));
}

#[test]
fn answers_are_put_together_as_proving_does() {
    let f = fixture::<Base>(PoStShape::Window, &[6, 2, 5], 2, 3);
    let handles = sound_handles(&f);
    let priv_sectors = private(&f, &handles);
    let priv_inputs = PrivateInputs { sectors: &priv_sectors[..] };
    let mut responses = Vec::new();
    for (s, sector) in f.pub_sectors.iter().enumerate() {
        let challenges = fallback_post::challenge::generate_leaf_challenges(
            &f.pub_params,
            f.randomness,
            sector.id,
            3,
        );
        responses.push(
            challenges
                .iter()
                .map(|c| handles[s].gen_cached_proof(*c as usize, None))
                .collect::<Vec<_>>(),
        );
    }
    let assembled = BASE.assemble_partitions(&f.pub_params, &public(&f), &priv_inputs, &responses, 2);
    let proven = BASE.prove_all_partitions(&f.pub_params, &public(&f), &priv_inputs, 2);
    assert!(assembled.is_ok());
    assert_eq!(assembled, proven);
    // One answer of the second sector for the wrong leaf makes that sector faulty.
    responses[1][2] = responses[0][0].clone();
    assert_eq!(
        BASE.assemble_partitions(&f.pub_params, &public(&f), &priv_inputs, &responses, 2),
        Err(Error::FaultySectors(vec![2]))
    );
}

// Verifying.

fn proven(f: &Fixture<Base>, partitions: usize) -> Vec<fallback_post::types::Proof> {
    let handles = sound_handles(f);
    let priv_sectors = private(f, &handles);
    BASE.prove_all_partitions(
        &f.pub_params,
        &public(f),
        &PrivateInputs { sectors: &priv_sectors },
        partitions,
    )
    .unwrap()
}

#[test]
fn a_flipped_byte_in_a_path_is_rejected() {
    let f = fixture::<Base>(PoStShape::Window, &[0, 1], 2, 3);
    let proofs = proven(&f, 1);
    for s in 0..2 {
        for n in 0..3 {
            let mut tampered = proofs.clone();
            tampered[0].sectors[s].inclusion_proofs[n].path[1].hashes[2].bytes[0] ^= 1;
            assert_eq!(
                BASE.verify_all_partitions(&f.pub_params, &public(&f), &tampered),
                Ok(false)
            );
        }
    }
}

#[test]
fn a_path_element_that_is_no_scalar_is_rejected() {
    let f = fixture::<Base>(PoStShape::Window, &[0], 1, 2);
    let mut proofs = proven(&f, 1);
    proofs[0].sectors[0].inclusion_proofs[1].path[0].hashes[0].bytes = [0xff; 32];
    assert_eq!(BASE.verify_all_partitions(&f.pub_params, &public(&f), &proofs), Ok(false));
}

#[test]
fn a_changed_path_index_is_rejected() {
    let f = fixture::<Base>(PoStShape::Window, &[0], 1, 2);
    let mut proofs = proven(&f, 1);
    let index = &mut proofs[0].sectors[0].inclusion_proofs[0].path[0].index;
    *index = (*index + 1) % 8;
    assert_eq!(BASE.verify_all_partitions(&f.pub_params, &public(&f), &proofs), Ok(false));
    let mut proofs = proven(&f, 1);
    proofs[0].sectors[0].inclusion_proofs[0].path[0].index = 1000;
    assert_eq!(BASE.verify_all_partitions(&f.pub_params, &public(&f), &proofs), Ok(false));
}

#[test]
fn a_flipped_byte_in_comm_c_is_rejected() {
    let f = fixture::<Base>(PoStShape::Window, &[0, 1], 2, 3);
    let mut proofs = proven(&f, 1);
    proofs[0].sectors[1].comm_c.bytes[0] ^= 1;
    assert_eq!(BASE.verify_all_partitions(&f.pub_params, &public(&f), &proofs), Ok(false));
}

#[test]
fn a_flipped_byte_in_a_root_is_rejected() {
    let f = fixture::<Base>(PoStShape::Window, &[0, 1], 2, 3);
    for n in 0..3 {
        let mut proofs = proven(&f, 1);
        proofs[0].sectors[0].inclusion_proofs[n].root.bytes[5] ^= 0x10;
        assert_eq!(BASE.verify_all_partitions(&f.pub_params, &public(&f), &proofs), Ok(false));
    }
}

#[test]
fn a_flipped_byte_in_a_leaf_is_rejected() {
    let f = fixture::<Base>(PoStShape::Window, &[0], 1, 3);
    let mut proofs = proven(&f, 1);
    proofs[0].sectors[0].inclusion_proofs[2].leaf.bytes[0] ^= 1;
    assert_eq!(BASE.verify_all_partitions(&f.pub_params, &public(&f), &proofs), Ok(false));
}

#[test]
fn a_path_of_another_length_is_rejected() {
    let f = fixture::<Base>(PoStShape::Window, &[0], 1, 3);
    let mut proofs = proven(&f, 1);
    proofs[0].sectors[0].inclusion_proofs[1].path.pop();
    assert_eq!(BASE.verify_all_partitions(&f.pub_params, &public(&f), &proofs), Ok(false));
}

#[test]
fn other_randomness_is_rejected() {
    let f = fixture::<Base>(PoStShape::Window, &[0], 1, 5);
    let proofs = proven(&f, 1);
    let mut inputs = public(&f);
    inputs.randomness.bytes[0] ^= 1;
    assert_eq!(BASE.verify_all_partitions(&f.pub_params, &inputs, &proofs), Ok(false));
}

#[test]
fn swapped_commitments_are_rejected() {
    let mut f = fixture::<Base>(PoStShape::Window, &[0, 1, 2], 3, 3);
    let proofs = proven(&f, 1);
    assert_eq!(BASE.verify_all_partitions(&f.pub_params, &public(&f), &proofs), Ok(true));
    let first = f.pub_sectors[0].comm_r;
    f.pub_sectors[0].comm_r = f.pub_sectors[2].comm_r;
    f.pub_sectors[2].comm_r = first;
    assert_eq!(BASE.verify_all_partitions(&f.pub_params, &public(&f), &proofs), Ok(false));
}

#[test]
fn swapped_sector_ids_are_rejected() {
    let mut f = fixture::<Base>(PoStShape::Window, &[0, 1], 2, 5);
    let proofs = proven(&f, 1);
    f.pub_sectors[0].id = 1;
    f.pub_sectors[1].id = 0;
    assert_eq!(BASE.verify_all_partitions(&f.pub_params, &public(&f), &proofs), Ok(false));
}

#[test]
fn too_few_partition_proofs_are_malformed() {
    let f = fixture::<Base>(PoStShape::Window, &[0, 1, 2], 2, 2);
    let proofs = proven(&f, 2);
    assert_eq!(
        BASE.verify_all_partitions(&f.pub_params, &public(&f), &proofs[..1]),
        Err(Error::InconsistentSectors { sectors: 3, sectors_per_partition: 2, partitions: 1 })
    );
    assert_eq!(
        BASE.verify_all_partitions(&f.pub_params, &public(&f), &[]),
        Err(Error::InconsistentSectors { sectors: 3, sectors_per_partition: 2, partitions: 0 })
    );
}

#[test]
fn partition_proofs_past_the_sectors_are_not_looked_at() {
    let f = fixture::<Base>(PoStShape::Window, &[0, 1], 2, 2);
    let mut proofs = proven(&f, 1);
    proofs.push(fallback_post::types::Proof { sectors: Vec::new() });
    assert_eq!(BASE.verify_all_partitions(&f.pub_params, &public(&f), &proofs), Ok(true));
}

#[test]
fn a_partition_of_the_wrong_size_is_malformed() {
    let f = fixture::<Base>(PoStShape::Window, &[0, 1, 2], 2, 2);
    let mut proofs = proven(&f, 2);
    proofs[1].sectors.pop();
    assert_eq!(
        BASE.verify_all_partitions(&f.pub_params, &public(&f), &proofs),
        Err(Error::InvalidPartitionSize { partition: 1, found: 1, expected: 2 })
    );
    let mut proofs = proven(&f, 2);
    let extra = proofs[0].sectors[0].clone();
    proofs[0].sectors.push(extra);
    assert_eq!(
        BASE.verify_all_partitions(&f.pub_params, &public(&f), &proofs),
        Err(Error::InvalidPartitionSize { partition: 0, found: 3, expected: 2 })
    );
}

#[test]
fn a_wrong_number_of_inclusion_proofs_is_malformed() {
    let f = fixture::<Base>(PoStShape::Window, &[0, 1], 2, 3);
    let mut proofs = proven(&f, 1);
    proofs[0].sectors[1].inclusion_proofs.pop();
    assert_eq!(
        BASE.verify_all_partitions(&f.pub_params, &public(&f), &proofs),
        Err(Error::UnexpectedInclusionProofCount { expected: 3, found: 2 })
    );
}

#[test]
fn a_sector_proof_without_inclusion_proofs_is_malformed() {
    let f = fixture::<Base>(PoStShape::Window, &[0, 1], 2, 3);
    let mut proofs = proven(&f, 1);
    proofs[0].sectors[1].inclusion_proofs.clear();
    assert_eq!(
        BASE.verify_all_partitions(&f.pub_params, &public(&f), &proofs),
        Err(Error::NoInclusionProofs { partition: 0, position: 1 })
    );
}

#[test]
fn the_first_failing_check_decides() {
    let f = fixture::<Base>(PoStShape::Window, &[0, 1], 2, 3);
    // The first sector does not hold, the second is malformed: the verdict is `false`.
    let mut proofs = proven(&f, 1);
    proofs[0].sectors[0].comm_c.bytes[0] ^= 1;
    proofs[0].sectors[1].inclusion_proofs.pop();
    assert_eq!(BASE.verify_all_partitions(&f.pub_params, &public(&f), &proofs), Ok(false));
    // The other way round the inputs are malformed.
    let mut proofs = proven(&f, 1);
    proofs[0].sectors[0].inclusion_proofs.pop();
    proofs[0].sectors[1].comm_c.bytes[0] ^= 1;
    assert_eq!(
        BASE.verify_all_partitions(&f.pub_params, &public(&f), &proofs),
        Err(Error::UnexpectedInclusionProofCount { expected: 3, found: 2 })
    );
    // An unbound commitment is found before a wrong number of inclusion proofs.
    let mut proofs = proven(&f, 1);
    proofs[0].sectors[0].comm_c.bytes[0] ^= 1;
    proofs[0].sectors[0].inclusion_proofs.pop();
    assert_eq!(BASE.verify_all_partitions(&f.pub_params, &public(&f), &proofs), Ok(false));
}

#[test]
fn padding_is_not_verified() {
    let f = fixture::<Base>(PoStShape::Window, &[0, 1, 2], 5, 2);
    let mut proofs = proven(&f, 1);
    proofs[0].sectors[4].inclusion_proofs.clear();
    proofs[0].sectors[3].comm_c.bytes[0] ^= 1;
    assert_eq!(BASE.verify_all_partitions(&f.pub_params, &public(&f), &proofs), Ok(true));
}

#[test]
fn a_window_proof_does_not_verify_as_a_winning_proof_of_two_challenges() {
    let mut f = fixture::<Base>(PoStShape::Window, &[0], 1, 2);
    let mut proofs = proven(&f, 1);
    // Both inclusion proofs answer the challenge of the slot, so the first one passes.
    let first = proofs[0].sectors[0].inclusion_proofs[0].clone();
    proofs[0].sectors[0].inclusion_proofs[1] = first;
    f.pub_params.shape = PoStShape::Winning;
    assert_eq!(
        BASE.verify_all_partitions(&f.pub_params, &public(&f), &proofs),
        Err(Error::WinningChallengeAssumption)
    );
}

#[test]
fn a_proof_is_held_against_the_path_length_of_the_shape() {
    let f = fixture::<Base>(PoStShape::Window, &[0], 1, 2);
    let proofs = proven(&f, 1);
    // 64 leaves under a top layer of two sub-trees of four base trees need three path elements.
    let other = FallbackPoSt { shape: TreeShape::Top8x4x2 };
    assert_eq!(other.verify_all_partitions(&f.pub_params, &public(&f), &proofs), Ok(false));
}

// Inclusion proofs and the hash, held against the trees and the hasher themselves.

#[test]
fn hash2_is_the_hash_of_the_hasher() {
    let rng = &mut XorShiftRng::from_seed(TEST_SEED);
    for _ in 0..5 {
        let a = PoseidonDomain::random(rng);
        let b = PoseidonDomain::random(rng);
        assert_eq!(
            fallback_post::hashing::hash2(&domain(a), &domain(b)),
            Some(domain(PoseidonFunction::hash2(&a, &b)))
        );
    }
}

#[test]
fn commitment_binds_the_hash_only() {
    let rng = &mut XorShiftRng::from_seed(TEST_SEED);
    let comm_c = PoseidonDomain::random(rng);
    let comm_r_last = PoseidonDomain::random(rng);
    let comm_r = domain(PoseidonFunction::hash2(&comm_c, &comm_r_last));
    let binds = fallback_post::prover::commitment_binds;
    assert!(binds(&comm_r, &domain(comm_c), &domain(comm_r_last)));
    assert!(!binds(&comm_r, &domain(comm_r_last), &domain(comm_c)));
    assert!(!binds(&domain(comm_c), &domain(comm_c), &domain(comm_r_last)));
    assert!(!binds(&comm_r, &Domain { bytes: [0xff; 32] }, &domain(comm_r_last)));
}

fn validates_as_the_tree_says<Tree: 'static + MerkleTreeTrait<Hasher = PoseidonHasher>>(
    shape: TreeShape,
) where
    Tree::Store: 'static,
{
    let rng = &mut XorShiftRng::from_seed(TEST_SEED);
    let leaves = 64 * get_base_tree_count::<Tree>();
    let dir = tempfile::tempdir().unwrap();
    let tree = generate_tree::<Tree, _>(rng, leaves, Some(dir.path().to_path_buf())).1;
    let handle = DiskTree { tree: &tree };
    assert_eq!(handle.leafs(), leaves);
    for leaf in [0, 1, 7, 8, 63, leaves / 2, leaves - 1] {
        let outside = tree.gen_cached_proof(leaf, None).unwrap();
        let proof = handle.gen_cached_proof(leaf, None).unwrap();
        assert!(proof.is_well_formed(shape));
        assert!(proof.validate(shape, leaf));
        assert_eq!(proof.validate(shape, leaf), outside.validate(leaf));
        let other = (leaf + 1) % leaves;
        assert!(!proof.validate(shape, other));
        assert_eq!(proof.validate(shape, other), outside.validate(other));
        assert_eq!(proof.root(), domain(tree.root()));
        assert_eq!(proof.leaf(), domain(outside.leaf()));
        assert_eq!(proof.path_len(), outside.path().len());
        assert_eq!(
            expected_len(shape, leaves),
            Some(outside.expected_len(leaves))
        );
        assert_eq!(expected_len(shape, leaves), Some(proof.path_len()));
        assert_eq!(
            proof.path().iter().map(|(hashes, index)| (hashes.len(), *index)).collect::<Vec<_>>(),
            outside.path().iter().map(|(hashes, index)| (hashes.len(), *index)).collect::<Vec<_>>()
        );
        let mut wrong_leaf = proof.clone();
        wrong_leaf.leaf.bytes[0] ^= 1;
        assert!(!wrong_leaf.validate(shape, leaf));
    }
}

#[test]
fn inclusion_proofs_of_base_trees_validate() {
    validates_as_the_tree_says::<LCTree<PoseidonHasher, U8, U0, U0>>(TreeShape::Base8);
}

#[test]
fn inclusion_proofs_of_sub_trees_of_four_validate() {
    validates_as_the_tree_says::<LCTree<PoseidonHasher, U8, U4, U0>>(TreeShape::Sub8x4);
}

#[test]
fn inclusion_proofs_of_sub_trees_of_eight_validate() {
    validates_as_the_tree_says::<LCTree<PoseidonHasher, U8, U8, U0>>(TreeShape::Sub8x8);
}

#[test]
fn inclusion_proofs_of_top_trees_over_four_validate() {
    validates_as_the_tree_says::<LCTree<PoseidonHasher, U8, U4, U2>>(TreeShape::Top8x4x2);
}

#[test]
fn inclusion_proofs_of_top_trees_over_eight_validate() {
    validates_as_the_tree_says::<LCTree<PoseidonHasher, U8, U8, U2>>(TreeShape::Top8x8x2);
}

#[test]
fn expected_path_lengths() {
    assert_eq!(expected_len(TreeShape::Base8, 64), Some(2));
    assert_eq!(expected_len(TreeShape::Base8, 1), Some(0));
    assert_eq!(expected_len(TreeShape::Base8, 0), None);
    assert_eq!(expected_len(TreeShape::Sub8x4, 256), Some(3));
    assert_eq!(expected_len(TreeShape::Sub8x4, 3), None);
    assert_eq!(expected_len(TreeShape::Sub8x8, 512), Some(3));
    assert_eq!(expected_len(TreeShape::Sub8x8, 7), None);
    assert_eq!(expected_len(TreeShape::Top8x4x2, 512), Some(4));
    assert_eq!(expected_len(TreeShape::Top8x4x2, 7), None);
    assert_eq!(expected_len(TreeShape::Top8x8x2, 1024), Some(4));
    assert_eq!(expected_len(TreeShape::Top8x8x2, 15), None);
    assert_eq!(expected_len(TreeShape::Top8x8x2, 16), Some(2));
}

#[test]
fn malformed_inclusion_proofs_do_not_validate() {
    let f = fixture::<Base>(PoStShape::Window, &[0], 1, 1);
    let handle = DiskTree { tree: &f.trees[0] };
    let proof = handle.gen_cached_proof(9, None).unwrap();
    assert!(proof.validate(TreeShape::Base8, 9));
    // An index past the siblings.
    let mut p = proof.clone();
    p.path[0].index = 8;
    assert!(!p.is_well_formed(TreeShape::Base8));
    assert!(!p.validate(TreeShape::Base8, 9));
    // A number of siblings that is no arity.
    let mut p = proof.clone();
    p.path[1].hashes.pop();
    assert!(!p.is_well_formed(TreeShape::Base8));
    assert!(!p.validate(TreeShape::Base8, 9));
    let mut p = proof.clone();
    p.path[1].hashes.clear();
    assert!(!p.validate(TreeShape::Base8, 9));
    // A leaf that is no scalar.
    let mut p = proof.clone();
    p.leaf.bytes = [0xff; 32];
    assert!(!p.is_well_formed(TreeShape::Base8));
    assert!(!p.validate(TreeShape::Base8, 9));
    // Too short a path for the layers of the shape.
    let mut p = proof.clone();
    p.path.truncate(1);
    assert!(p.is_well_formed(TreeShape::Sub8x8));
    assert!(!p.is_well_formed(TreeShape::Top8x8x2));
    assert!(!p.validate(TreeShape::Top8x8x2, 9));
    // A path too long for any index.
    let mut p = proof.clone();
    let element = p.path[0].clone();
    for _ in 0..64 {
        p.path.push(element.clone());
    }
    assert!(!p.is_well_formed(TreeShape::Base8));
    assert!(!p.validate(TreeShape::Base8, 9));
}

#[test]
fn sector_proof_hands_out_its_parts() {
    let f = fixture::<Base>(PoStShape::Window, &[0], 1, 3);
    let proofs = proven(&f, 1);
    let sector = &proofs[0].sectors[0];
    assert_eq!(sector.inclusion_proofs(), &sector.inclusion_proofs);
    assert_eq!(sector.comm_r_last(), domain(f.trees[0].root()));
    assert_eq!(sector.commitments(), vec![domain(f.trees[0].root()); 3]);
    assert_eq!(
        sector.leafs(),
        sector.inclusion_proofs.iter().map(|p| p.leaf).collect::<Vec<_>>()
    );
    let paths = sector.paths();
    let options = sector.as_options();
    assert_eq!(paths.len(), 3);
    assert_eq!(options.len(), 3);
    for (n, proof) in sector.inclusion_proofs.iter().enumerate() {
        assert_eq!(paths[n], proof.path());
        assert_eq!(paths[n].len(), 2);
        for (k, element) in proof.path.iter().enumerate() {
            assert_eq!(paths[n][k], (element.hashes.clone(), element.index));
            assert_eq!(options[n][k].1, Some(element.index));
            assert_eq!(
                options[n][k].0,
                element.hashes.iter().map(|h| Some(*h)).collect::<Vec<_>>()
            );
        }
    }
    assert_eq!(&sector.duplicate(), sector);
    assert_eq!(proofs[0].duplicate(), proofs[0]);
    assert_eq!(sector.inclusion_proofs[0].duplicate(), sector.inclusion_proofs[0]);
}

// Proofs in serialised form.

type OutsideProof = storage_proofs_core::merkle::MerkleProof<PoseidonHasher, U8, U0, U0>;

fn outside_proof(proof: &MerkleProof) -> OutsideProof {
    OutsideProof::from_parts(
        PoseidonDomain::from(proof.leaf.bytes),
        PoseidonDomain::from(proof.root.bytes),
        proof
            .path
            .iter()
            .map(|e| (e.hashes.iter().map(|h| PoseidonDomain::from(h.bytes)).collect(), e.index))
            .collect(),
    )
}

fn proof_bytes(proofs: &[fallback_post::types::Proof]) -> Vec<u8> {
    let mut bytes = Vec::new();
    for proof in proofs {
        for sector in &proof.sectors {
            bytes.extend_from_slice(&sector.comm_c.bytes);
            bytes.extend_from_slice(&sector.comm_r_last.bytes);
            for inclusion_proof in &sector.inclusion_proofs {
                bytes.extend(serde_json::to_vec(&outside_proof(inclusion_proof)).unwrap());
            }
        }
    }
    bytes
}

#[test]
fn proof_bytes_are_the_same_on_every_run() {
    let f = fixture::<Base>(PoStShape::Window, &[0, 1, 2], 2, 3);
    let first = proof_bytes(&proven(&f, 2));
    let second = proof_bytes(&proven(&f, 2));
    assert!(!first.is_empty());
    assert_eq!(first, second);
}

#[test]
fn inclusion_proofs_come_back_from_their_serialised_form() {
    let f = fixture::<Base>(PoStShape::Window, &[0], 1, 3);
    let proofs = proven(&f, 1);
    for inclusion_proof in &proofs[0].sectors[0].inclusion_proofs {
        let bytes = serde_json::to_vec(&outside_proof(inclusion_proof)).unwrap();
        let back: OutsideProof = serde_json::from_slice(&bytes).unwrap();
        let plain = MerkleProof {
            root: domain(back.root()),
            leaf: domain(back.leaf()),
            path: back
                .path()
                .into_iter()
                .map(|(hashes, index)| PathElement {
                    hashes: hashes.into_iter().map(domain).collect(),
                    index,
                })
                .collect(),
        };
        assert_eq!(&plain, inclusion_proof);
    }
}
