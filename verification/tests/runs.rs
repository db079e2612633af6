use packet_flow::measurement::{Kind, Report};
use packet_flow::packet::Packet;
use packet_flow::receiver::{ReceiverAction, ReceiverEvent, UdpReceiver, TIMEOUT_NANOS};

const SECOND: u128 = 1_000_000_000;

fn receiver() -> UdpReceiver {
    UdpReceiver::new("10.0.0.1:8000".to_string(), TIMEOUT_NANOS)
}

fn poll(now: u128) -> ReceiverEvent {
    ReceiverEvent::Poll { shutdown: false, now }
}

fn packet(source: &str, sequence: u64, is_final: bool, seen_at: u128) -> ReceiverEvent {
    ReceiverEvent::Datagram {
        source: source.to_string(),
        bytes: Packet { sequence, timestamp_us: 100, is_final }.to_bytes(),
        micros: 100 + sequence as u128,
        seen_at,
    }
}

fn garbage(source: &str) -> ReceiverEvent {
    ReceiverEvent::Datagram {
        source: source.to_string(),
        bytes: vec![7; 3],
        micros: 100,
        seen_at: 0,
    }
}

type Plain = (String, Kind, u64);

fn plain(reports: &[Report]) -> Vec<Plain> {
    reports.iter().map(|r| (r.source.clone(), r.kind, r.value)).collect()
}

struct Outcome {
    dead: Vec<String>,
    swept: Vec<Plain>,
    all: Vec<Plain>,
}

fn run(receiver: &mut UdpReceiver, events: Vec<ReceiverEvent>) -> Outcome {
    let mut outcome = Outcome { dead: Vec::new(), swept: Vec::new(), all: Vec::new() };
    for event in events {
        match receiver.step(event) {
            ReceiverAction::Receive(sweep) => {
                outcome.dead.extend(sweep.dead);
                outcome.swept.extend(plain(&sweep.reports));
                outcome.all.extend(plain(&sweep.reports));
            }
            ReceiverAction::Poll(reports) => outcome.all.extend(plain(&reports)),
            ReceiverAction::Stop => {}
        }
    }
    outcome
}

fn about(reports: &[Plain], source: &str) -> Vec<(Kind, u64)> {
    reports.iter().filter(|r| r.0 == source).map(|r| (r.1, r.2)).collect()
}

fn lost(reports: &[Plain], source: &str) -> u64 {
    about(reports, source)
        .iter()
        .filter(|(kind, _)| *kind == Kind::PacketLoss)
        .map(|(_, value)| value)
        .sum()
}

#[test]
fn who_is_heard_stays_remembered() {
    let mut receiver = receiver();
    let outcome = run(
        &mut receiver,
        vec![
            packet("a:1", 1, false, 0),
            packet("b:1", 1, false, 0),
            poll(5 * SECOND),
            packet("a:1", 2, false, 5 * SECOND),
            poll(10 * SECOND),
            packet("a:1", 3, false, 60 * SECOND),
            poll(60 * SECOND + 1),
        ],
    );
    assert_eq!(outcome.dead, vec!["b:1".to_string()]);
    assert!(about(&outcome.swept, "a:1").is_empty());
    assert_eq!(about(&outcome.swept, "b:1"), vec![(Kind::PacketLoss, 1)]);
    let next = run(&mut receiver, vec![packet("a:1", 6, false, 61 * SECOND)]);
    assert_eq!(lost(&next.all, "a:1"), 2);
}

#[test]
fn one_moment_too_long_is_named() {
    let events = vec![packet("a:1", 1, false, 0), poll(TIMEOUT_NANOS + 1)];
    let outcome = run(&mut receiver(), events);
    assert_eq!(about(&outcome.swept, "a:1"), vec![(Kind::PacketLoss, 1)]);
}

#[test]
fn received_and_lost_add_up_while_heard() {
    let mut receiver = receiver();
    run(&mut receiver, vec![packet("a:1", 3, false, 0)]);
    let outcome = run(
        &mut receiver,
        vec![
            poll(4 * SECOND),
            packet("a:1", 4, false, 5 * SECOND),
            packet("b:1", 90, false, 5 * SECOND),
            poll(10 * SECOND),
            packet("a:1", 9, false, 12 * SECOND),
            ReceiverEvent::Quiet,
            poll(17 * SECOND),
            packet("a:1", 20, false, 17 * SECOND),
        ],
    );
    assert_eq!(3 + 3 + lost(&outcome.all, "a:1"), 20);
}

#[test]
fn received_and_lost_add_up_from_the_first_while_heard() {
    let outcome = run(
        &mut receiver(),
        vec![
            packet("a:1", 10, false, SECOND),
            poll(6 * SECOND),
            packet("a:1", 11, false, 6 * SECOND),
            poll(11 * SECOND),
            packet("a:1", 15, false, 11 * SECOND),
        ],
    );
    assert_eq!(lost(&outcome.all, "a:1"), 3);
    assert_eq!(15 - 10 + 1, 3 + lost(&outcome.all, "a:1"));
}

#[test]
fn reports_depend_on_own_packets_alone() {
    let alone = run(
        &mut receiver(),
        vec![
            packet("a:1", 1, false, 0),
            packet("a:1", 4, false, SECOND),
            packet("a:1", 5, true, SECOND),
            packet("a:1", 50, false, 2 * SECOND),
            packet("a:1", 52, false, 2 * SECOND),
        ],
    );
    assert_eq!(
        about(&alone.all, "a:1"),
        vec![
            (Kind::Latency, 1),
            (Kind::PacketLoss, 2),
            (Kind::Latency, 4),
            (Kind::Latency, 50),
            (Kind::PacketLoss, 1),
            (Kind::Latency, 52),
        ]
    );
}

#[test]
fn senders_do_not_disturb_each_other() {
    let quiet = run(
        &mut receiver(),
        vec![
            packet("a:1", 1, false, 0),
            packet("a:1", 4, false, SECOND),
            packet("a:1", 5, true, SECOND),
            packet("a:1", 50, false, 2 * SECOND),
        ],
    );
    let busy = run(
        &mut receiver(),
        vec![
            packet("b:1", 7, false, 0),
            poll(0),
            packet("a:1", 1, false, 3 * SECOND),
            packet("b:1", 70, false, 0),
            garbage("a:1"),
            poll(8 * SECOND),
            packet("a:1", 4, false, 8 * SECOND),
            ReceiverEvent::Quiet,
            packet("a:1", 5, true, 9 * SECOND),
            poll(90 * SECOND),
            packet("b:1", 5, true, 9 * SECOND),
            packet("a:1", 50, false, 95 * SECOND),
            poll(100 * SECOND),
        ],
    );
    assert_eq!(busy.dead, vec!["b:1".to_string()]);
    assert_eq!(lost(&busy.all, "b:1"), 63);
    assert_eq!(about(&quiet.all, "a:1"), about(&busy.all, "a:1"));
    assert_eq!(about(&quiet.all, "a:1").len(), 4);
}
