use ullfs::decode::{decode_message, ServerMessage};
use ullfs::delta::{apply_delta_with_hash, DeltaError};
use ullfs::events::{ChangeType, TcpData};
use ullfs::file_store::FileData;
use ullfs::sender::change_message;
use ullfs::server_update::apply_message;

fn write(name: &str) -> TcpData {
    TcpData { filename: name.to_string(), old_filename: String::new(), change_type: ChangeType::write }
}

#[test]
fn delta_with_known_hash() {
    let old = b"0123456789".to_vec();
    assert!(matches!(apply_delta_with_hash(&old, 3, 5, b"ab", 7, 8), Ok(None)));
    match apply_delta_with_hash(&old, 3, 5, b"ab", 7, 7) {
        Ok(Some(v)) => assert_eq!(v, b"01ab56789".to_vec()),
        _ => panic!("delta not applied"),
    }
    assert!(matches!(apply_delta_with_hash(&old, 0, 5, b"ab", 7, 7), Err(DeltaError::StartOutOfRange)));
    assert!(matches!(apply_delta_with_hash(&old, 12, 5, b"ab", 7, 7), Err(DeltaError::StartOutOfRange)));
    assert!(apply_delta_with_hash(&old, 11, 5, b"ab", 7, 7).is_ok());
}

#[test]
fn full_file_message_replaces_copy() {
    let msg = ServerMessage::FullFile { path: "/f".to_string(), data: b"new".to_vec() };
    match apply_message(&msg, b"whatever was there") {
        Ok(Some(v)) => assert_eq!(v, b"new".to_vec()),
        _ => panic!("not replaced"),
    }
}

#[test]
fn server_copy_follows_client_versions() {
    let versions: Vec<&[u8]> = vec![b"first version", b"first revised version", b"revised", b"", b"again"];
    let mut store = FileData::from_config(60, 10);
    let mut server_copy: Vec<u8> = b"stale copy".to_vec();
    for v in versions {
        let stream = change_message(&mut store, &write("/doc.txt"), "/w", v.to_vec());
        let (msg, used) = match decode_message(&stream) {
            Ok(x) => x,
            Err(_) => panic!("message not read"),
        };
        assert_eq!(used, stream.len());
        match &msg {
            ServerMessage::FullFile { path, .. } => assert_eq!(path, "/doc.txt"),
            ServerMessage::Delta { path, .. } => assert_eq!(path, "/doc.txt"),
        }
        match apply_message(&msg, &server_copy) {
            Ok(Some(new_copy)) => server_copy = new_copy,
            _ => panic!("copy not updated"),
        }
        assert_eq!(server_copy, v.to_vec());
    }
}

#[test]
fn delta_for_another_version_leaves_copy() {
    let mut store = FileData::from_config(60, 10);
    change_message(&mut store, &write("/a"), "/w", b"one".to_vec());
    let stream = change_message(&mut store, &write("/a"), "/w", b"two".to_vec());
    let (msg, _) = match decode_message(&stream) {
        Ok(x) => x,
        Err(_) => panic!("message not read"),
    };
    assert!(matches!(apply_message(&msg, b"not one"), Ok(None)));
}
