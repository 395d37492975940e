use ullfs::file_store::{File, FileData};

fn xxh3(b: &[u8]) -> u64 {
    xxhash_rust::xxh3::xxh3_64(b)
}

#[test]
fn file_new_builds_a_file() {
    let _f = File::new(b"abc".to_vec(), 5);
}

#[test]
fn first_version_is_sent_whole() {
    let mut store = FileData::from_config(60, 100);
    let d = store.get_file_delta("/w/a.txt", b"first".to_vec());
    assert_eq!(d.start_index, 0);
    assert_eq!(d.end_index, 0);
    assert_eq!(d.data, b"first".to_vec());
    assert_eq!(d.old_hash, 0);
}

#[test]
fn second_version_is_sent_as_delta() {
    let mut store = FileData::from_config(60, 100);
    store.get_file_delta("/w/a.txt", b"hello world".to_vec());
    let d = store.get_file_delta("/w/a.txt", b"hello there world".to_vec());
    assert_eq!(d.start_index, 7);
    assert_eq!(d.end_index, 6);
    assert_eq!(d.data, b"there ".to_vec());
    assert_eq!(d.old_hash, xxh3(b"hello world"));
    // the stored version is now the second one
    let d2 = store.get_file_delta("/w/a.txt", b"hello there world!".to_vec());
    assert_eq!(d2.old_hash, xxh3(b"hello there world"));
    assert_eq!(d2.data, b"!".to_vec());
}

#[test]
fn other_paths_are_stored_apart() {
    let mut store = FileData::from_config(60, 100);
    store.get_file_delta("/w/a", b"aaa".to_vec());
    let d = store.get_file_delta("/w/b", b"bbb".to_vec());
    assert_eq!(d.start_index, 0);
    assert_eq!(d.data, b"bbb".to_vec());
}

#[test]
fn cleanup_keeps_files_with_time_left() {
    let mut store = FileData::from_config(10, 100);
    store.get_file_delta("/w/a", b"v1".to_vec());
    assert!(store.clean_ram(4));
    assert!(store.clean_ram(6));
    // 10 - 4 - 6 = 0 minutes left: still stored
    let d = store.get_file_delta("/w/a", b"v2".to_vec());
    assert_ne!(d.start_index, 0);
    assert_eq!(d.old_hash, xxh3(b"v1"));
}

#[test]
fn cleanup_removes_expired_files() {
    let mut store = FileData::from_config(10, 100);
    store.get_file_delta("/w/a", b"v1".to_vec());
    store.get_file_delta("/w/b", b"w1".to_vec());
    assert!(store.clean_ram(8));
    // a fresh version of b restarts its time
    store.get_file_delta("/w/b", b"w2".to_vec());
    assert!(store.clean_ram(3));
    let da = store.get_file_delta("/w/a", b"v2".to_vec());
    assert_eq!(da.start_index, 0);
    assert_eq!(da.data, b"v2".to_vec());
    let db = store.get_file_delta("/w/b", b"w3".to_vec());
    assert_ne!(db.start_index, 0);
    assert_eq!(db.old_hash, xxh3(b"w2"));
}

#[test]
fn two_cleanups_equal_one_of_their_sum() {
    let mut one = FileData::from_config(10, 100);
    let mut two = FileData::from_config(10, 100);
    for s in [&mut one, &mut two] {
        s.get_file_delta("/w/a", b"a".to_vec());
    }
    assert!(one.clean_ram(11));
    assert!(two.clean_ram(5));
    assert!(two.clean_ram(6));
    assert_eq!(one.get_file_delta("/w/a", b"b".to_vec()).start_index, 0);
    assert_eq!(two.get_file_delta("/w/a", b"b".to_vec()).start_index, 0);
}

#[test]
fn keeping_time_is_cut_to_32_bits() {
    let mut store = FileData::from_config((1u64 << 32) + 2, 0);
    store.get_file_delta("/w/a", b"x".to_vec());
    assert!(store.clean_ram(3));
    let d = store.get_file_delta("/w/a", b"y".to_vec());
    assert_eq!(d.start_index, 0);
}
