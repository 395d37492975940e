use ullfs::delta::{apply_delta, compute_delta, get_delta, splice_delta, Delta, DeltaError};
use ullfs::hashing::{chunk_hash_file, hash, hash_chunk};

#[test]
fn hash_chunk_matches_xxh3() {
    let data = b"the quick brown fox".to_vec();
    let h = hash_chunk(data.clone());
    assert_eq!(h.hash, xxhash_rust::xxh3::xxh3_64(&data));
    assert_ne!(h.hash, 0);
}

#[test]
fn hash_new_keeps_value() {
    assert_eq!(hash::new(42).hash, 42);
}

#[test]
fn chunk_hash_file_is_empty() {
    assert!(chunk_hash_file("/nowhere").is_empty());
}

#[test]
fn delta_new_keeps_fields() {
    let d = Delta::new(3, 7, vec![1, 2], 99);
    assert_eq!(d.start_index, 3);
    assert_eq!(d.end_index, 7);
    assert_eq!(d.data, vec![1, 2]);
    assert_eq!(d.old_hash, 99);
}

#[test]
fn delta_of_insertion_in_the_middle() {
    let old = b"hello world".to_vec();
    let new = b"hello there world".to_vec();
    let d = get_delta(&old, &new);
    // common prefix "hello " (6 bytes), common suffix "world"
    assert_eq!(d.start_index, 7);
    assert_eq!(d.end_index, 6);
    assert_eq!(d.data, b"there ".to_vec());
    assert_eq!(d.old_hash, xxhash_rust::xxh3::xxh3_64(&old));
}

#[test]
fn delta_of_replacement() {
    let old = b"abcdef".to_vec();
    let new = b"abXYef".to_vec();
    let d = compute_delta(&old, &new, 5);
    assert_eq!(d.start_index, 3);
    assert_eq!(d.end_index, 4);
    assert_eq!(d.data, b"XY".to_vec());
    assert_eq!(d.old_hash, 5);
}

#[test]
fn delta_of_deletion_at_end() {
    let old = b"abcdef".to_vec();
    let new = b"abc".to_vec();
    let d = compute_delta(&old, &new, 0);
    assert_eq!(d.start_index, 4);
    assert_eq!(d.end_index, 6);
    assert!(d.data.is_empty());
}

#[test]
fn delta_of_identical_files() {
    let old = b"same".to_vec();
    let d = compute_delta(&old, &old, 0);
    assert_eq!(d.start_index, 5);
    assert_eq!(d.end_index, 4);
    assert!(d.data.is_empty());
}

#[test]
fn delta_from_empty_file() {
    let old: Vec<u8> = Vec::new();
    let new = b"fresh".to_vec();
    let d = compute_delta(&old, &new, 0);
    assert_eq!(d.start_index, 1);
    assert_eq!(d.end_index, 0);
    assert_eq!(d.data, new);
}

#[test]
fn delta_applies_back_to_new() {
    let cases: Vec<(&[u8], &[u8])> = vec![
        (b"hello world", b"hello there world"),
        (b"abcdef", b"abXYef"),
        (b"abcdef", b"abc"),
        (b"abc", b"xabc"),
        (b"", b"new"),
        (b"old", b""),
        (b"aaaa", b"aa"),
        (b"same", b"same"),
    ];
    for (old, new) in cases {
        let d = get_delta(&old.to_vec(), &new.to_vec());
        let r = apply_delta(old, d.start_index, d.end_index, &d.data, d.old_hash);
        match r {
            Ok(Some(v)) => assert_eq!(v, new.to_vec()),
            _ => panic!("delta did not apply"),
        }
    }
}

#[test]
fn delta_for_other_version_is_skipped() {
    let old = b"version one".to_vec();
    let d = get_delta(&old, &b"version two".to_vec());
    let other = b"version 1.5".to_vec();
    assert!(matches!(apply_delta(&other, d.start_index, d.end_index, &d.data, d.old_hash), Ok(None)));
}

#[test]
fn delta_starting_outside_is_refused() {
    let old = b"abc".to_vec();
    let h = xxhash_rust::xxh3::xxh3_64(&old);
    assert!(matches!(apply_delta(&old, 0, 0, b"x", h), Err(DeltaError::StartOutOfRange)));
    assert!(matches!(apply_delta(&old, 6, 0, b"x", h), Err(DeltaError::StartOutOfRange)));
    assert!(matches!(apply_delta(&old, 0, 0, b"x", h.wrapping_add(1)), Ok(None)));
}

#[test]
fn splice_resumes_at_end_or_start() {
    let old = b"0123456789".to_vec();
    // start 3 (keep "01"), end 5: resume at 5
    assert_eq!(splice_delta(&old, 3, 5, b"ab"), b"01ab56789".to_vec());
    // start beyond end: resume at start - 1
    assert_eq!(splice_delta(&old, 5, 2, b"X"), b"0123X456789".to_vec());
    // resume point past the file: nothing after the data
    assert_eq!(splice_delta(&old, 11, 20, b"Z"), b"0123456789Z".to_vec());
}
