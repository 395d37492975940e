use ullfs::events::{ChangeType, TcpData};
use ullfs::file_store::FileData;
use ullfs::sender::{change_message, full_path, same_change};

fn data(f: &str, o: &str, k: ChangeType) -> TcpData {
    TcpData { filename: f.to_string(), old_filename: o.to_string(), change_type: k }
}

#[test]
fn full_path_appends() {
    assert_eq!(full_path("/w", &"/a/b".to_string()), "/w/a/b");
}

#[test]
fn notices_without_contents() {
    let mut store = FileData::from_config(60, 10);
    assert_eq!(
        change_message(&mut store, &data("/d", "", ChangeType::create_dir), "/w", Vec::new()),
        b"/d\x00\x06".to_vec()
    );
    assert_eq!(
        change_message(&mut store, &data("/f", "", ChangeType::create_file), "/w", Vec::new()),
        b"/f\x00\x05".to_vec()
    );
    assert_eq!(
        change_message(&mut store, &data("/g", "", ChangeType::delete), "/w", Vec::new()),
        b"/g\x00\x04".to_vec()
    );
    // a move names the notice's old_filename first
    assert_eq!(
        change_message(&mut store, &data("/from", "/to", ChangeType::move_fdir), "/w", Vec::new()),
        b"/to\x00\x03/from\x00".to_vec()
    );
}

#[test]
fn written_file_goes_whole_then_as_delta() {
    let mut store = FileData::from_config(60, 10);
    let first = change_message(&mut store, &data("/f", "", ChangeType::write), "/w", b"abc".to_vec());
    let mut expected = b"/f\x00\x01".to_vec();
    expected.extend_from_slice(&3u64.to_le_bytes());
    expected.extend_from_slice(b"abc");
    assert_eq!(first, expected);

    let second = change_message(&mut store, &data("/f", "", ChangeType::write), "/w", b"abXc".to_vec());
    let mut expected2 = b"/f\x00\x02".to_vec();
    expected2.extend_from_slice(&3u64.to_le_bytes());
    expected2.extend_from_slice(&2u64.to_le_bytes());
    expected2.extend_from_slice(&1u64.to_le_bytes());
    expected2.extend_from_slice(&xxhash_rust::xxh3::xxh3_64(b"abc").to_le_bytes());
    expected2.extend_from_slice(b"X");
    assert_eq!(second, expected2);
}

#[test]
fn same_change_compares_everything() {
    let a = data("/a", "", ChangeType::write);
    assert!(same_change(&a, &data("/a", "", ChangeType::write)));
    assert!(!same_change(&a, &data("/a", "", ChangeType::delete)));
    assert!(!same_change(&a, &data("/b", "", ChangeType::write)));
    assert!(!same_change(&a, &data("/a", "/x", ChangeType::write)));
}
