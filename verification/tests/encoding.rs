use dpc::bytes::{bytes_concat, bytes_eq, u64_le_bytes};
use dpc::crh::{hash_bytes, TAG_CIRCUIT_ID, TAG_NODE};
use dpc::encode::to_field_elements;

#[test]
fn u64_le_bytes_exact() {
    assert_eq!(u64_le_bytes(0x0102), vec![2, 1, 0, 0, 0, 0, 0, 0]);
    assert_eq!(u64_le_bytes(0), vec![0; 8]);
    assert_eq!(u64_le_bytes(u64::MAX), vec![0xff; 8]);
}

#[test]
fn encoding_splits_into_capacity_chunks() {
    let empty: Vec<u8> = Vec::new();
    assert_eq!(to_field_elements(&empty), Vec::<Vec<u8>>::new());

    let short = vec![7u8; 5];
    assert_eq!(to_field_elements(&short), vec![vec![7u8; 5]]);

    let twenty: Vec<u8> = (0u8..20).collect();
    let elements = to_field_elements(&twenty);
    assert_eq!(elements.len(), 2);
    assert_eq!(elements[0], (0u8..16).collect::<Vec<u8>>());
    assert_eq!(elements[1], (16u8..20).collect::<Vec<u8>>());

    let digest = vec![9u8; 32];
    let elements = to_field_elements(&digest);
    assert_eq!(elements, vec![vec![9u8; 16], vec![9u8; 16]]);
}

#[test]
fn encoding_is_deterministic() {
    let value: Vec<u8> = (0u8..40).collect();
    assert_eq!(to_field_elements(&value), to_field_elements(&value));
}

#[test]
fn encoding_distinguishes_values() {
    let a = vec![1u8; 32];
    let mut b = a.clone();
    b[31] = 2;
    assert_ne!(to_field_elements(&a), to_field_elements(&b));
}

#[test]
fn hash_is_deterministic_and_tag_separated() {
    let input = vec![5u8, 6, 7];
    let d1 = hash_bytes(TAG_CIRCUIT_ID, &input);
    let d2 = hash_bytes(TAG_CIRCUIT_ID, &input);
    assert_eq!(d1, d2);
    assert_eq!(d1.len(), 32);
    let other_tag = hash_bytes(TAG_NODE, &input);
    assert_ne!(d1, other_tag);
    let mut tweaked = input.clone();
    tweaked[0] = 9;
    assert_ne!(d1, hash_bytes(TAG_CIRCUIT_ID, &tweaked));
}

#[test]
fn bytes_helpers() {
    let a = vec![1u8, 2];
    let b = vec![3u8];
    assert_eq!(bytes_concat(&a, &b), vec![1, 2, 3]);
    assert!(bytes_eq(&a, &vec![1u8, 2]));
    assert!(!bytes_eq(&a, &b));
}
