use fallback_post::challenge::{
    generate_leaf_challenge, generate_leaf_challenges, generate_sector_challenge,
    generate_sector_challenges,
};
use fallback_post::domain::Domain;
use fallback_post::error::Error;
use fallback_post::hashing::{hash2, u64_le_bytes};
use fallback_post::params::{PoStShape, PublicParams};

fn params(sector_size: u64) -> PublicParams {
    PublicParams {
        sector_size,
        challenge_count: 10,
        sector_count: 5,
        shape: PoStShape::Window,
    }
}

fn counting() -> Domain {
    let mut bytes = [0u8; 32];
    for (i, b) in bytes.iter_mut().enumerate() {
        *b = i as u8;
    }
    Domain { bytes }
}

fn filled(byte: u8) -> Domain {
    Domain { bytes: [byte; 32] }
}

#[test]
fn leaf_challenge_of_zero_randomness() {
    assert_eq!(generate_leaf_challenge(&params(64 * 32), filled(0), 0, 0), 23);
}

#[test]
fn leaf_challenge_known_values() {
    assert_eq!(generate_leaf_challenge(&params(64 * 32), counting(), 7, 3), 53);
    assert_eq!(generate_leaf_challenge(&params(1024 * 32), counting(), 7, 3), 629);
    assert_eq!(
        generate_leaf_challenge(&params(1000 * 32), counting(), u64::MAX, u64::MAX),
        5
    );
}

#[test]
fn leaf_challenge_uses_whole_leaves_only() {
    // 64 leaves and 31 bytes more are still 64 leaves.
    assert_eq!(generate_leaf_challenge(&params(64 * 32 + 31), counting(), 7, 3), 53);
}

#[test]
fn leaf_challenge_of_largest_sector() {
    assert_eq!(
        generate_leaf_challenge(&params(u64::MAX), filled(0), 0, 0),
        396792336580259889
    );
}

#[test]
fn leaf_challenge_of_single_leaf_sector_is_zero() {
    for index in 0..20 {
        assert_eq!(generate_leaf_challenge(&params(32), counting(), 9, index), 0);
    }
}

#[test]
fn leaf_challenges_are_the_challenges_by_index() {
    let challenges = generate_leaf_challenges(&params(64 * 32), counting(), 5, 10);
    assert_eq!(challenges, vec![26, 20, 59, 15, 60, 46, 40, 17, 54, 28]);
    for (index, challenge) in challenges.iter().enumerate() {
        assert_eq!(
            *challenge,
            generate_leaf_challenge(&params(64 * 32), counting(), 5, index as u64)
        );
    }
}

#[test]
fn leaf_challenges_of_count_zero_are_empty() {
    assert!(generate_leaf_challenges(&params(64 * 32), counting(), 5, 0).is_empty());
}

#[test]
fn leaf_challenges_stay_inside_the_sector() {
    for leaves in [1u64, 2, 3, 64, 1000] {
        for sector_id in 0..4 {
            for challenge in
                generate_leaf_challenges(&params(leaves * 32), filled(0x5a), sector_id, 25)
            {
                assert!(challenge < leaves);
            }
        }
    }
}

#[test]
fn sector_challenge_known_values() {
    assert_eq!(generate_sector_challenge(filled(0), 0, 1, filled(0)), Ok(0));
    assert_eq!(generate_sector_challenge(counting(), 2, 100, filled(0xab)), Ok(50));
}

#[test]
fn sector_challenge_hashes_the_prover_id_first() {
    // The same two values the other way round give another challenge.
    assert_eq!(generate_sector_challenge(filled(0xab), 2, 100, counting()), Ok(8));
}

#[test]
fn sector_challenge_of_empty_set_is_refused() {
    assert_eq!(
        generate_sector_challenge(counting(), 0, 0, filled(1)),
        Err(Error::EmptySectorSet)
    );
}

#[test]
fn sector_challenges_are_the_challenges_by_index() {
    assert_eq!(
        generate_sector_challenges(counting(), 6, 17, filled(0xab)),
        Ok(vec![16, 0, 9, 5, 5, 4])
    );
}

#[test]
fn sector_challenges_of_empty_set() {
    assert_eq!(
        generate_sector_challenges(counting(), 3, 0, filled(0xab)),
        Err(Error::EmptySectorSet)
    );
    assert_eq!(generate_sector_challenges(counting(), 0, 0, filled(0xab)), Ok(vec![]));
}

#[test]
fn sector_challenges_stay_inside_the_set() {
    for len in [1u64, 2, 7, 1 << 40] {
        for challenge in generate_sector_challenges(filled(3), 30, len, filled(4)).unwrap() {
            assert!(challenge < len);
        }
    }
}

#[test]
fn challenges_are_the_same_on_every_call() {
    let first = generate_leaf_challenges(&params(1024 * 32), counting(), 11, 50);
    let second = generate_leaf_challenges(&params(1024 * 32), counting(), 11, 50);
    assert_eq!(first, second);
}

#[test]
fn integers_are_written_least_significant_byte_first() {
    assert_eq!(u64_le_bytes(0), [0u8; 8]);
    assert_eq!(u64_le_bytes(1), [1, 0, 0, 0, 0, 0, 0, 0]);
    assert_eq!(
        u64_le_bytes(0x0102030405060708),
        [0x08, 0x07, 0x06, 0x05, 0x04, 0x03, 0x02, 0x01]
    );
    assert_eq!(u64_le_bytes(u64::MAX), [0xff; 8]);
}

#[test]
fn hash2_needs_two_scalars() {
    assert!(hash2(&filled(0), &filled(1)).is_some());
    assert!(hash2(&filled(0xff), &filled(1)).is_none());
    assert!(hash2(&filled(1), &filled(0xff)).is_none());
}

#[test]
fn hash2_depends_on_both_arguments_and_their_order() {
    let a = filled(1);
    let b = filled(2);
    let ab = hash2(&a, &b).unwrap();
    let ba = hash2(&b, &a).unwrap();
    assert_ne!(ab, ba);
    assert_ne!(ab, a);
    assert_ne!(ab, b);
    assert_eq!(hash2(&a, &b), Some(ab));
    assert!(ab.is_field_element());
}
