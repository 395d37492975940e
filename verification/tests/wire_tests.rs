use ullfs::decode::{decode_message, DecodeError, ServerMessage};
use ullfs::delta::Delta;
use ullfs::wire::{
    create_dir_message, create_file_message, deletion_message, delta_message, full_file_header,
    full_file_message, move_message, relative_path_bytes, strip_leading_bytes,
};

#[test]
fn relative_path_strips_leading_base() {
    assert_eq!(relative_path_bytes("/base/x/base/y", "/base"), b"/x/base/y".to_vec());
    assert_eq!(relative_path_bytes("/other/base/y", "/base"), b"/other/base/y".to_vec());
    assert_eq!(relative_path_bytes("/w/file.txt", "/w"), b"/file.txt".to_vec());
    assert_eq!(relative_path_bytes("/w/file.txt", ""), b"/w/file.txt".to_vec());
    assert_eq!(strip_leading_bytes(b"aaaa", b"aa"), b"aa".to_vec());
    assert_eq!(strip_leading_bytes(b"a", b"aa"), b"a".to_vec());
}

#[test]
fn message_heads() {
    assert_eq!(deletion_message("/w/a", "/w"), b"/a\x00\x04".to_vec());
    assert_eq!(create_dir_message("/w/d", "/w"), b"/d\x00\x06".to_vec());
    assert_eq!(create_file_message("/w/f", "/w"), b"/f\x00\x05".to_vec());
    assert_eq!(move_message("/w/old", "/w/new", "/w"), b"/old\x00\x03/new\x00".to_vec());
}

#[test]
fn full_file_framing() {
    let h = full_file_header("/w/f", "/w", 3);
    assert_eq!(h, b"/f\x00\x01\x03\x00\x00\x00\x00\x00\x00\x00".to_vec());
    let m = full_file_message("/w/f", "/w", b"abc");
    let mut expected = h.clone();
    expected.extend_from_slice(b"abc");
    assert_eq!(m, expected);
}

#[test]
fn delta_framing() {
    let d = Delta::new(2, 5, b"zz".to_vec(), 0x0102030405060708);
    let m = delta_message(&d, "/w/f", "/w");
    let mut expected = b"/f\x00\x02".to_vec();
    expected.extend_from_slice(&2u64.to_le_bytes());
    expected.extend_from_slice(&5u64.to_le_bytes());
    expected.extend_from_slice(&2u64.to_le_bytes());
    expected.extend_from_slice(&0x0102030405060708u64.to_le_bytes());
    expected.extend_from_slice(b"zz");
    assert_eq!(m, expected);
}

#[test]
fn server_reads_full_file_back() {
    let mut stream = full_file_message("/w/dir/f.txt", "/w", b"contents");
    stream.extend_from_slice(b"next");
    match decode_message(&stream) {
        Ok((ServerMessage::FullFile { path, data }, n)) => {
            assert_eq!(path, "/dir/f.txt");
            assert_eq!(data, b"contents".to_vec());
            assert_eq!(n, stream.len() - 4);
        }
        _ => panic!("not read back"),
    }
}

#[test]
fn server_reads_delta_back() {
    let d = Delta::new(7, 6, b"there ".to_vec(), 77);
    let stream = delta_message(&d, "/w/g", "/w");
    match decode_message(&stream) {
        Ok((ServerMessage::Delta { path, start, end, hash, data }, n)) => {
            assert_eq!(path, "/g");
            assert_eq!((start, end, hash), (7, 6, 77));
            assert_eq!(data, b"there ".to_vec());
            assert_eq!(n, stream.len());
        }
        _ => panic!("not read back"),
    }
}

#[test]
fn server_rejects_other_kinds_and_bad_input() {
    let del = deletion_message("/w/a", "/w");
    assert!(matches!(decode_message(&del), Err(DecodeError::UnknownFlag(4))));
    assert!(matches!(decode_message(b"/a"), Err(DecodeError::UnexpectedEnd)));
    assert!(matches!(decode_message(b"/a\x00"), Err(DecodeError::UnexpectedEnd)));
    assert!(matches!(decode_message(b"/a\x00\x01\x05\x00"), Err(DecodeError::UnexpectedEnd)));
    assert!(matches!(
        decode_message(b"/a\x00\x01\x05\x00\x00\x00\x00\x00\x00\x00abc"),
        Err(DecodeError::UnexpectedEnd)
    ));
    assert!(matches!(decode_message(b"\xff\xfe\x00\x01"), Err(DecodeError::InvalidPath)));
    assert!(matches!(decode_message(b""), Err(DecodeError::UnexpectedEnd)));
}

#[test]
fn path_without_its_zero_byte_is_incomplete() {
    // the first byte of a two-byte character, with the rest still to come
    assert!(matches!(decode_message(b"/\xc3"), Err(DecodeError::UnexpectedEnd)));
    assert!(matches!(decode_message(b"/\xc3\x00\x01"), Err(DecodeError::InvalidPath)));
}
