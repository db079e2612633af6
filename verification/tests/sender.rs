use packet_flow::clock::timestamp_us;
use packet_flow::packet::Packet;
use packet_flow::receiver::count_lost;
use packet_flow::sender::{SenderAction, SenderEvent, SenderPhase, UdpSender};

fn sent_packet(action: SenderAction) -> Packet {
    match action {
        SenderAction::Send(bytes) => Packet::from_bytes(&bytes).unwrap(),
        other => panic!("{:?}", other),
    }
}

fn tick(sender: &mut UdpSender, micros: u128) -> Packet {
    sent_packet(sender.step(SenderEvent::Tick { micros }))
}

#[test]
fn sent_packets_are_numbered_one_by_one() {
    let mut sender = UdpSender::new();
    for number in 0..5u64 {
        let packet = tick(&mut sender, 1000 + number as u128);
        assert_eq!(
            packet,
            Packet { sequence: number, timestamp_us: 1000 + number, is_final: false }
        );
        assert_eq!(sender.phase, SenderPhase::Sending);
        assert!(matches!(sender.step(SenderEvent::Sent), SenderAction::Wait));
    }
    assert_eq!(sender, UdpSender { sequence: 5, phase: SenderPhase::Waiting });
}

#[test]
fn refused_packet_keeps_its_number() {
    let mut sender = UdpSender::new();
    assert_eq!(tick(&mut sender, 1).sequence, 0);
    assert!(matches!(sender.step(SenderEvent::Refused), SenderAction::Wait));
    assert_eq!(tick(&mut sender, 2).sequence, 0);
    sender.step(SenderEvent::Sent);
    assert_eq!(tick(&mut sender, 3).sequence, 1);
}

#[test]
fn failed_socket_stops_the_sender() {
    let mut sender = UdpSender::new();
    tick(&mut sender, 1);
    assert!(matches!(sender.step(SenderEvent::Failed), SenderAction::Stop));
    assert_eq!(sender.phase, SenderPhase::Stopped);
}

#[test]
fn skipped_number_looks_like_a_lost_packet() {
    let mut sender = UdpSender::new();
    let first = tick(&mut sender, 1);
    sender.step(SenderEvent::Sent);
    assert!(matches!(sender.step(SenderEvent::Skip), SenderAction::Wait));
    sender.step(SenderEvent::Skip);
    let second = tick(&mut sender, 2);
    assert_eq!(second.sequence, 3);
    assert_eq!(count_lost(first.sequence, second.sequence), 2);
}

#[test]
fn shutdown_sends_one_last_packet_and_stops() {
    for outcome in [SenderEvent::Sent, SenderEvent::Refused, SenderEvent::Failed] {
        let mut sender = UdpSender { sequence: 9, phase: SenderPhase::Waiting };
        let packet = sent_packet(sender.step(SenderEvent::Shutdown { micros: 44 }));
        assert_eq!(packet, Packet { sequence: 9, timestamp_us: 44, is_final: true });
        assert!(matches!(sender.step(outcome), SenderAction::Stop));
        assert_eq!(sender, UdpSender { sequence: 9, phase: SenderPhase::Stopped });
    }
}

#[test]
fn clock_is_cut_to_64_bits() {
    assert_eq!(timestamp_us(12), 12);
    assert_eq!(timestamp_us(u64::MAX as u128), u64::MAX);
    assert_eq!(timestamp_us(u64::MAX as u128 + 6), 5);
    assert_eq!(timestamp_us(u128::MAX), u128::MAX as u64);
}
