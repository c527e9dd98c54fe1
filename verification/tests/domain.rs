use fallback_post::domain::{Domain, NODE_SIZE};
use fallback_post::faults::FaultSet;

const MODULUS_LE: [u8; 32] = [
    0x01, 0x00, 0x00, 0x00, 0xff, 0xff, 0xff, 0xff, 0xfe, 0x5b, 0xfe, 0xff, 0x02, 0xa4, 0xbd, 0x53,
    0x05, 0xd8, 0xa1, 0x09, 0x08, 0xd8, 0x39, 0x33, 0x48, 0x7d, 0x9d, 0x29, 0x53, 0xa7, 0xed, 0x73,
];

#[test]
fn node_size_is_32() {
    assert_eq!(NODE_SIZE, 32);
}

#[test]
fn zero_is_all_zero_bytes() {
    assert_eq!(Domain::zero().bytes, [0u8; 32]);
}

#[test]
fn the_modulus_is_no_field_element() {
    assert!(!Domain { bytes: MODULUS_LE }.is_field_element());
}

#[test]
fn the_number_below_the_modulus_is_a_field_element() {
    let mut bytes = MODULUS_LE;
    bytes[0] = 0x00;
    assert!(Domain { bytes }.is_field_element());
}

#[test]
fn the_number_above_the_modulus_is_no_field_element() {
    let mut bytes = MODULUS_LE;
    bytes[0] = 0x02;
    assert!(!Domain { bytes }.is_field_element());
}

#[test]
fn the_most_significant_byte_decides_first() {
    let mut low_top = [0xffu8; 32];
    low_top[31] = 0x73;
    assert!(!Domain { bytes: low_top }.is_field_element());
    low_top[31] = 0x72;
    assert!(Domain { bytes: low_top }.is_field_element());
    let mut high_top = [0u8; 32];
    high_top[31] = 0x74;
    assert!(!Domain { bytes: high_top }.is_field_element());
}

#[test]
fn zero_and_all_ones() {
    assert!(Domain::zero().is_field_element());
    assert!(!Domain { bytes: [0xff; 32] }.is_field_element());
}

#[test]
fn try_from_bytes_takes_32_bytes_only() {
    assert!(Domain::try_from_bytes(&[7u8; 31]).is_none());
    assert!(Domain::try_from_bytes(&[7u8; 33]).is_none());
    assert!(Domain::try_from_bytes(&[]).is_none());
    let d = Domain::try_from_bytes(&MODULUS_LE).unwrap();
    assert_eq!(d.bytes, MODULUS_LE);
    assert_eq!(d.into_bytes(), MODULUS_LE.to_vec());
}

#[test]
fn same_compares_every_byte() {
    let a = Domain { bytes: [9u8; 32] };
    let mut bytes = [9u8; 32];
    assert!(a.same(&Domain { bytes }));
    bytes[31] = 8;
    assert!(!a.same(&Domain { bytes }));
    bytes[31] = 9;
    bytes[0] = 10;
    assert!(!a.same(&Domain { bytes }));
}

#[test]
fn fault_set_lists_each_id_once_in_ascending_order() {
    let mut faults = FaultSet::new();
    assert!(faults.is_empty());
    for id in [7u64, 3, 9, 3, 0, 7, u64::MAX, 5] {
        faults.insert(id);
    }
    assert!(!faults.is_empty());
    assert_eq!(faults.into_sorted(), vec![0, 3, 5, 7, 9, u64::MAX]);
}

#[test]
fn empty_fault_set_lists_nothing() {
    assert_eq!(FaultSet::new().into_sorted(), Vec::<u64>::new());
}
