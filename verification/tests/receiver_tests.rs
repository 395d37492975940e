use ullfs::receiver::{ReceiverAction, ReceiverState};

fn data_packet(n: u32, body: &[u8]) -> Vec<u8> {
    let mut p = n.to_be_bytes().to_vec();
    p.extend_from_slice(body);
    p
}

#[test]
fn file_transfer_in_order() {
    let mut s = ReceiverState::new();
    match s.on_datagram(b"__SOF__dir/f.txt") {
        ReceiverAction::StartFile { path } => assert_eq!(path, b"dir/f.txt".to_vec()),
        _ => panic!("expected a start"),
    }
    assert!(s.receiving);
    assert_eq!(s.expected_seq, 0);
    match s.on_datagram(&data_packet(0, b"hello ")) {
        ReceiverAction::Append { data, ack } => {
            assert_eq!(data, b"hello ".to_vec());
            assert_eq!(ack, 0);
        }
        _ => panic!("expected data"),
    }
    match s.on_datagram(&data_packet(1, b"world")) {
        ReceiverAction::Append { data, ack } => {
            assert_eq!(data, b"world".to_vec());
            assert_eq!(ack, 1);
        }
        _ => panic!("expected data"),
    }
    assert_eq!(s.expected_seq, 2);
    assert!(matches!(s.on_datagram(b"__EOF__"), ReceiverAction::FileDone));
    assert!(!s.receiving);
    assert_eq!(s.expected_seq, 0);
}

#[test]
fn out_of_order_packet_is_acknowledged_again() {
    let mut s = ReceiverState::new();
    s.on_datagram(b"__SOF__f");
    assert!(matches!(s.on_datagram(&data_packet(3, b"x")), ReceiverAction::Resend { ack: 0 }));
    s.on_datagram(&data_packet(0, b"a"));
    s.on_datagram(&data_packet(1, b"b"));
    assert!(matches!(s.on_datagram(&data_packet(1, b"b")), ReceiverAction::Resend { ack: 1 }));
    assert_eq!(s.expected_seq, 2);
}

#[test]
fn other_datagrams() {
    let mut s = ReceiverState::new();
    assert!(matches!(s.on_datagram(b""), ReceiverAction::Nothing));
    assert!(matches!(s.on_datagram(b"data"), ReceiverAction::Ignore));
    assert!(matches!(s.on_datagram(b"exit"), ReceiverAction::Exit));
    s.on_datagram(b"__SOF__");
    assert!(matches!(s.on_datagram(b"ab"), ReceiverAction::ShortPacket));
    assert!(matches!(s.on_datagram(b"exit"), ReceiverAction::Exit));
    assert!(s.receiving);
}

#[test]
fn sequence_number_wraps() {
    let mut s = ReceiverState { expected_seq: u32::MAX, receiving: true };
    assert!(matches!(s.on_datagram(&data_packet(u32::MAX, b"z")), ReceiverAction::Append { ack: u32::MAX, .. }));
    assert_eq!(s.expected_seq, 0);
}

#[test]
fn packets_in_order_are_all_taken() {
    let mut s = ReceiverState::new();
    s.on_datagram(b"__SOF__big");
    for n in 0u32..300 {
        let body = vec![(n % 251) as u8; 10];
        match s.on_datagram(&data_packet(n, &body)) {
            ReceiverAction::Append { data, ack } => {
                assert_eq!(ack, n);
                assert_eq!(data, body);
            }
            _ => panic!("packet not taken"),
        }
    }
    assert_eq!(s.expected_seq, 300);
}
