use sol_p4_tools::partition::{compute_partition_postfix, partition_postfix_from_digest};
use std::collections::HashSet;

#[test]
fn partition_postfix_deterministic() {
    let a = compute_partition_postfix("test_pk");
    let b = compute_partition_postfix("test_pk");
    assert_eq!(a, b);
    assert_eq!(a.len(), 1);
}

#[test]
fn partition_postfix_hex_range() {
    for pk in ["a", "b", "c", "1234", "abc_test"] {
        let p = compute_partition_postfix(pk);
        assert_eq!(p.len(), 1);
        let last = p.chars().next().unwrap();
        assert!("0123456789ABCDEF".contains(last), "got {last}");
    }
}

#[test]
fn partition_postfix_distributes_across_buckets() {
    let mut buckets: HashSet<String> = HashSet::new();
    for i in 0..200 {
        buckets.insert(compute_partition_postfix(&format!("pk_{i}")));
    }
    assert!(buckets.len() > 8, "expected wide distribution, got {} buckets", buckets.len());
}

#[test]
fn partition_postfix_of_known_digest() {
    // SHA-1("abc") = a9993e36...; its first byte 0xa9 has upper nibble A.
    assert_eq!(compute_partition_postfix("abc"), "A");
    // SHA-1("") = da39a3ee...
    assert_eq!(compute_partition_postfix(""), "D");
    assert_eq!(partition_postfix_from_digest(&[0x0f, 0xff]), "0");
    assert_eq!(partition_postfix_from_digest(&[0x9a]), "9");
    assert_eq!(partition_postfix_from_digest(&[0xf0]), "F");
}
