use packet_flow::packet::{Packet, PACKET_SIZE};

#[test]
fn packet_bytes_are_little_endian() {
    let packet = Packet { sequence: 0x0102030405060708, timestamp_us: 258, is_final: true };
    assert_eq!(
        packet.to_bytes(),
        vec![8, 7, 6, 5, 4, 3, 2, 1, 2, 1, 0, 0, 0, 0, 0, 0, 1]
    );
    let packet = Packet { sequence: 1, timestamp_us: u64::MAX, is_final: false };
    assert_eq!(
        packet.to_bytes(),
        vec![1, 0, 0, 0, 0, 0, 0, 0, 255, 255, 255, 255, 255, 255, 255, 255, 0]
    );
}

#[test]
fn packets_read_back() {
    for sequence in [0, 1, 255, 256, u64::MAX] {
        for is_final in [false, true] {
            let packet = Packet { sequence, timestamp_us: 1_700_000_000_000_000, is_final };
            let mut bytes = packet.to_bytes();
            assert_eq!(bytes.len(), PACKET_SIZE);
            assert_eq!(Packet::from_bytes(&bytes), Some(packet));
            bytes.push(9);
            bytes.push(9);
            assert_eq!(Packet::from_bytes(&bytes), Some(packet));
        }
    }
}

#[test]
fn what_is_no_packet_is_refused() {
    let packet = Packet { sequence: 5, timestamp_us: 6, is_final: false };
    let bytes = packet.to_bytes();
    assert_eq!(Packet::from_bytes(&[]), None);
    assert_eq!(Packet::from_bytes(&bytes[..16]), None);
    let mut bad = packet.to_bytes();
    bad[16] = 2;
    assert_eq!(Packet::from_bytes(&bad), None);
    bad[16] = 255;
    assert_eq!(Packet::from_bytes(&bad), None);
}

#[test]
fn packet_that_is_read_is_written_alike() {
    let bytes: Vec<u8> = vec![9, 8, 7, 6, 5, 4, 3, 2, 1, 2, 3, 4, 5, 6, 7, 8, 1, 77];
    let packet = Packet::from_bytes(&bytes).unwrap();
    assert_eq!(packet.to_bytes(), bytes[..17].to_vec());
}
