use packet_flow::measurement::{Kind, Report};
use packet_flow::packet::Packet;
use packet_flow::receiver::{
    count_lost, standing, ReceiverAction, ReceiverEvent, Standing, UdpReceiver, DEAD_AFTER_NANOS,
    RECEIVE_WAIT_MILLIS, TIMEOUT_NANOS,
};

const SECOND: u128 = 1_000_000_000;

fn receiver() -> UdpReceiver {
    UdpReceiver::new("10.0.0.1:8000".to_string(), TIMEOUT_NANOS)
}

fn packet(sequence: u64) -> Packet {
    Packet { sequence, timestamp_us: 100, is_final: false }
}

type Plain = (Kind, String, String, u64);

fn plain(reports: &[Report]) -> Vec<Plain> {
    reports
        .iter()
        .map(|r| (r.kind, r.source.clone(), r.destination.clone(), r.value))
        .collect()
}

fn loss(source: &str, value: u64) -> Plain {
    (Kind::PacketLoss, source.to_string(), "10.0.0.1:8000".to_string(), value)
}

fn latency(source: &str, value: u64) -> Plain {
    (Kind::Latency, source.to_string(), "10.0.0.1:8000".to_string(), value)
}

fn feed(receiver: &mut UdpReceiver, source: &str, sequence: u64) -> Vec<Plain> {
    plain(&receiver.process_packet(source.to_string(), packet(sequence), 130, SECOND))
}

#[test]
fn first_packet_brings_its_latency_only() {
    let mut receiver = receiver();
    assert_eq!(feed(&mut receiver, "a:1", 1000), vec![latency("a:1", 30)]);
}

#[test]
fn gaps_are_reported_before_the_latency() {
    let mut receiver = receiver();
    feed(&mut receiver, "a:1", 5);
    assert_eq!(feed(&mut receiver, "a:1", 6), vec![latency("a:1", 30)]);
    assert_eq!(feed(&mut receiver, "a:1", 10), vec![loss("a:1", 3), latency("a:1", 30)]);
    assert_eq!(feed(&mut receiver, "a:1", 10), vec![latency("a:1", 30)]);
    assert_eq!(feed(&mut receiver, "a:1", 7), vec![latency("a:1", 30)]);
    assert_eq!(feed(&mut receiver, "a:1", 10), vec![loss("a:1", 2), latency("a:1", 30)]);
}

#[test]
fn senders_are_told_apart() {
    let mut receiver = receiver();
    feed(&mut receiver, "a:1", 5);
    feed(&mut receiver, "b:1", 50);
    assert_eq!(feed(&mut receiver, "a:1", 6), vec![latency("a:1", 30)]);
    assert_eq!(feed(&mut receiver, "b:1", 53), vec![loss("b:1", 2), latency("b:1", 30)]);
}

#[test]
fn lost_packets_between_two_numbers() {
    assert_eq!(count_lost(4, 4), 0);
    assert_eq!(count_lost(4, 5), 0);
    assert_eq!(count_lost(4, 3), 0);
    assert_eq!(count_lost(4, 6), 1);
    assert_eq!(count_lost(0, u64::MAX), u64::MAX - 1);
    assert_eq!(count_lost(u64::MAX, 0), 0);
    assert_eq!(count_lost(u64::MAX, u64::MAX), 0);
    assert_eq!(count_lost(u64::MAX, 9), 9);
}

#[test]
fn received_and_lost_account_for_all_numbers() {
    let mut receiver = receiver();
    let numbers = [3u64, 4, 9, 10, 20, 21, 22, 40];
    let mut lost = 0;
    for number in numbers {
        for (kind, _, _, value) in feed(&mut receiver, "a:1", number) {
            if kind == Kind::PacketLoss {
                lost += value;
            }
        }
        feed(&mut receiver, "other:1", number * 7);
    }
    assert_eq!(3 + (numbers.len() as u64 - 1) + lost, 40);
    assert_eq!(40 - 3 + 1, numbers.len() as u64 + lost);
}

#[test]
fn last_packet_ends_a_sender() {
    let mut receiver = receiver();
    feed(&mut receiver, "a:1", 5);
    feed(&mut receiver, "b:1", 5);
    let last = Packet { sequence: 99, timestamp_us: 100, is_final: true };
    assert!(receiver.process_packet("a:1".to_string(), last, 100, SECOND).is_empty());
    assert!(receiver.process_packet("nobody:1".to_string(), last, 100, SECOND).is_empty());
    let sweep = receiver.check_timeouts(SECOND + TIMEOUT_NANOS + 1);
    assert_eq!(plain(&sweep.reports), vec![loss("b:1", 1)]);
    assert_eq!(feed(&mut receiver, "a:1", 500), vec![latency("a:1", 30)]);
}

#[test]
fn silence_is_judged() {
    assert_eq!(standing(10, 20, 0), Standing::Active);
    assert_eq!(standing(20, 20, 0), Standing::Active);
    assert_eq!(standing(21, 20, 0), Standing::TimedOut);
    assert_eq!(standing(5 * SECOND, 0, TIMEOUT_NANOS), Standing::Active);
    assert_eq!(standing(5 * SECOND + 1, 0, TIMEOUT_NANOS), Standing::TimedOut);
    assert_eq!(standing(60 * SECOND, 0, TIMEOUT_NANOS), Standing::TimedOut);
    assert_eq!(standing(60 * SECOND + 1, 0, TIMEOUT_NANOS), Standing::Dead);
    assert_eq!(standing(61 * SECOND, 0, 100 * SECOND), Standing::Dead);
    assert_eq!(TIMEOUT_NANOS, 5 * SECOND);
    assert_eq!(DEAD_AFTER_NANOS, 60 * SECOND);
    assert_eq!(RECEIVE_WAIT_MILLIS, 1000);
}

#[test]
fn silent_senders_are_reported_and_dead_ones_forgotten() {
    let mut receiver = receiver();
    receiver.process_packet("dead:1".to_string(), packet(1), 100, 0);
    receiver.process_packet("silent:1".to_string(), packet(1), 100, 40 * SECOND);
    receiver.process_packet("quiet:1".to_string(), packet(1), 100, 41 * SECOND);
    receiver.process_packet("lively:1".to_string(), packet(1), 100, 60 * SECOND);
    let sweep = receiver.check_timeouts(60 * SECOND + 1);
    assert_eq!(sweep.dead, vec!["dead:1".to_string()]);
    let mut reports = plain(&sweep.reports);
    reports.sort_by(|a, b| a.1.cmp(&b.1));
    assert_eq!(reports, vec![loss("quiet:1", 1), loss("silent:1", 1)]);
    let again = receiver.check_timeouts(60 * SECOND + 1);
    assert!(again.dead.is_empty());
    assert_eq!(again.reports.len(), 2);
    assert_eq!(feed(&mut receiver, "dead:1", 700), vec![latency("dead:1", 30)]);
    assert_eq!(
        feed(&mut receiver, "silent:1", 3),
        vec![loss("silent:1", 1), latency("silent:1", 30)]
    );
}

#[test]
fn clock_that_went_back_speaks_against_nobody() {
    let mut receiver = receiver();
    receiver.process_packet("a:1".to_string(), packet(1), 100, 1000 * SECOND);
    let sweep = receiver.check_timeouts(0);
    assert!(sweep.dead.is_empty());
    assert!(sweep.reports.is_empty());
}

#[test]
fn rounds_of_a_receiver() {
    let mut receiver = receiver();
    match receiver.step(ReceiverEvent::Poll { shutdown: false, now: 0 }) {
        ReceiverAction::Receive(sweep) => {
            assert!(sweep.dead.is_empty() && sweep.reports.is_empty())
        }
        other => panic!("{:?}", other),
    }
    for (sequence, expected) in [
        (7, vec![latency("a:1", 23)]),
        (9, vec![loss("a:1", 1), latency("a:1", 23)]),
    ] {
        let event = ReceiverEvent::Datagram {
            source: "a:1".to_string(),
            bytes: packet(sequence).to_bytes(),
            micros: 123,
            seen_at: 0,
        };
        match receiver.step(event) {
            ReceiverAction::Poll(reports) => assert_eq!(plain(&reports), expected),
            other => panic!("{:?}", other),
        }
    }
    let garbage = ReceiverEvent::Datagram {
        source: "a:1".to_string(),
        bytes: vec![1, 2, 3],
        micros: 0,
        seen_at: 99 * SECOND,
    };
    assert!(matches!(receiver.step(garbage), ReceiverAction::Poll(reports) if reports.is_empty()));
    assert!(matches!(
        receiver.step(ReceiverEvent::Quiet),
        ReceiverAction::Poll(reports) if reports.is_empty()
    ));
    match receiver.step(ReceiverEvent::Poll { shutdown: false, now: 6 * SECOND }) {
        ReceiverAction::Receive(sweep) => assert_eq!(plain(&sweep.reports), vec![loss("a:1", 1)]),
        other => panic!("{:?}", other),
    }
    assert!(matches!(receiver.step(ReceiverEvent::SocketError), ReceiverAction::Stop));
    assert!(matches!(
        receiver.step(ReceiverEvent::Poll { shutdown: true, now: 6 * SECOND }),
        ReceiverAction::Stop
    ));
}
