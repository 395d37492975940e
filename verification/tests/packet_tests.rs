use ullfs::packet::{
    create_delta_packet, create_packet_wrapper, delta_packet_payload, full_file_packet_header,
    FullFileData, HEADER_SIZE, PACKET_SIZE,
};

#[test]
fn packet_layout() {
    let data = b"payload".to_vec();
    let p = create_packet_wrapper(0x0102030405060708, 0x1112131415161718, 3, &data);
    let mut body = vec![1u8, 2, 3, 4, 5, 6, 7, 8];
    body.extend_from_slice(&0x1112131415161718u64.to_be_bytes());
    body.extend_from_slice(&3u64.to_be_bytes());
    body.extend_from_slice(b"payload");
    let mut expected = body.clone();
    expected.extend_from_slice(&xxhash_rust::xxh3::xxh3_64(&body).to_be_bytes());
    assert_eq!(p, expected);
    assert_eq!(p.len(), HEADER_SIZE + data.len());
}

#[test]
fn packet_of_full_payload() {
    let data = vec![7u8; PACKET_SIZE - HEADER_SIZE];
    let p = create_packet_wrapper(1, 0, 1, &data);
    assert_eq!(p.len(), PACKET_SIZE);
}

#[test]
fn delta_payload_layout() {
    let p = delta_packet_payload(5, 9, b"ab");
    let mut expected = vec![1u8];
    expected.extend_from_slice(&5u64.to_be_bytes());
    expected.extend_from_slice(&9u64.to_be_bytes());
    expected.extend_from_slice(b"ab");
    assert_eq!(p, expected);
}

#[test]
fn delta_packet_runs() {
    create_delta_packet(1, 2, b"short delta".to_vec());
    create_delta_packet(0, 0, Vec::new());
}

#[test]
fn full_file_header_layout() {
    let h = full_file_packet_header("dir/file.txt", vec![9u8]);
    let mut expected = vec![9u8, 0, 0, 12];
    expected.extend_from_slice(b"dir/file.txt");
    assert_eq!(h, expected);
    let long = "x".repeat(300);
    let h2 = full_file_packet_header(&long, Vec::new());
    assert_eq!(&h2[..3], &[0u8, 1, 44]);
    assert_eq!(h2.len(), 303);
}

#[test]
fn full_file_data_holds_fields() {
    let f = FullFileData { path: "p".to_string(), timestamp: "t".to_string(), data: vec![1, 2] };
    assert_eq!(f.path, "p");
    assert_eq!(f.timestamp, "t");
    assert_eq!(f.data, vec![1, 2]);
}

#[test]
fn packet_numbers_are_big_endian() {
    let p = create_packet_wrapper(1, 256, 3, &vec![0xAAu8]);
    assert_eq!(p.len(), 33);
    assert_eq!(
        &p[..25],
        &[0, 0, 0, 0, 0, 0, 0, 1, 0, 0, 0, 0, 0, 0, 1, 0, 0, 0, 0, 0, 0, 0, 0, 3, 0xAA]
    );
    assert_eq!(&p[25..], &xxhash_rust::xxh3::xxh3_64(&p[..25]).to_be_bytes());
}
