use packet_flow::measurement::Kind;
use packet_flow::receiver::{ReceiverAction, ReceiverEvent, UdpReceiver, TIMEOUT_NANOS};
use packet_flow::sender::{SenderAction, SenderEvent, UdpSender};

const SECOND: u128 = 1_000_000_000;

fn deliver(receiver: &mut UdpReceiver, action: SenderAction, micros: u128) -> Vec<(Kind, u64)> {
    let bytes = match action {
        SenderAction::Send(bytes) => bytes,
        other => panic!("{:?}", other),
    };
    let event = ReceiverEvent::Datagram {
        source: "192.0.2.7:4000".to_string(),
        bytes,
        micros,
        seen_at: SECOND,
    };
    match receiver.step(event) {
        ReceiverAction::Poll(reports) => reports.iter().map(|r| (r.kind, r.value)).collect(),
        other => panic!("{:?}", other),
    }
}

fn silent_senders(receiver: &mut UdpReceiver) -> usize {
    match receiver.step(ReceiverEvent::Poll { shutdown: false, now: 10 * SECOND }) {
        ReceiverAction::Receive(sweep) => sweep.reports.len(),
        other => panic!("{:?}", other),
    }
}

#[test]
fn sender_and_receiver_understand_each_other() {
    let mut sender = UdpSender::new();
    let mut receiver = UdpReceiver::new("192.0.2.1:8000".to_string(), TIMEOUT_NANOS);

    let action = sender.step(SenderEvent::Tick { micros: 1000 });
    assert_eq!(deliver(&mut receiver, action, 1250), vec![(Kind::Latency, 250)]);
    sender.step(SenderEvent::Sent);
    sender.step(SenderEvent::Skip);

    let action = sender.step(SenderEvent::Tick { micros: 2000 });
    assert_eq!(
        deliver(&mut receiver, action, 2000),
        vec![(Kind::PacketLoss, 1), (Kind::Latency, 0)]
    );
    sender.step(SenderEvent::Sent);
    assert_eq!(silent_senders(&mut receiver), 1);

    let action = sender.step(SenderEvent::Shutdown { micros: 3000 });
    assert_eq!(deliver(&mut receiver, action, 3000), vec![]);
    assert_eq!(silent_senders(&mut receiver), 0);
}
