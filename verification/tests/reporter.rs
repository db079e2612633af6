use influxdb::Query;
use packet_flow::measurement::{Kind, Latency, Measurement, PacketLoss, Report};
use packet_flow::reporter::{
    InfluxReporter, ReporterAction, ReporterEvent, ReporterPhase, BATCH_LIMIT, DRAIN_LIMIT,
    REST_MILLIS,
};

fn report(kind: Kind, source: &str, value: u64) -> Report {
    Report { kind, source: source.to_string(), destination: "here:2".to_string(), value }
}

fn batch() -> Vec<Measurement> {
    vec![
        report(Kind::PacketLoss, "a b:1", 3).at(77),
        report(Kind::Latency, "c:1", 1500).at(78),
        report(Kind::Latency, "c:1", u64::MAX).at(u128::MAX),
    ]
}

fn lines(queries: &Vec<influxdb::WriteQuery>) -> Vec<String> {
    queries.iter().map(|query| query.build().unwrap().get()).collect()
}

fn expected_lines() -> Vec<String> {
    vec![
        "packet_loss source=\"a b:1\",destination=\"here:2\",value=3i 77".to_string(),
        "latency source=\"c:1\",destination=\"here:2\",value=1500i 78".to_string(),
        format!(
            "latency source=\"c:1\",destination=\"here:2\",value={}i {}",
            u64::MAX,
            u128::MAX
        ),
    ]
}

#[test]
fn reports_are_stamped() {
    match report(Kind::PacketLoss, "a:1", 3).at(9) {
        Measurement::PacketLoss(loss) => {
            assert_eq!((loss.time, loss.value), (9, 3));
            assert_eq!((loss.source.as_str(), loss.destination.as_str()), ("a:1", "here:2"));
        }
        other => panic!("{:?}", other),
    }
    match report(Kind::Latency, "a:1", 3).at(9) {
        Measurement::Latency(latency) => {
            assert_eq!((latency.time, latency.value), (9, 3));
            assert_eq!((latency.source.as_str(), latency.destination.as_str()), ("a:1", "here:2"));
        }
        other => panic!("{:?}", other),
    }
}

#[test]
fn points_carry_all_of_a_measurement() {
    let loss = PacketLoss {
        time: 5,
        source: "a:1".to_string(),
        destination: "b:2".to_string(),
        value: 6,
    };
    let query = loss.into_query("somewhere");
    assert_eq!(query.get_precision(), "ns");
    assert_eq!(
        query.build().unwrap().get(),
        "somewhere source=\"a:1\",destination=\"b:2\",value=6i 5"
    );
    let latency = Latency {
        time: 5,
        source: "a:1".to_string(),
        destination: "b:2".to_string(),
        value: 6,
    };
    assert_eq!(
        latency.into_query("elsewhere").build().unwrap().get(),
        "elsewhere source=\"a:1\",destination=\"b:2\",value=6i 5"
    );
}

#[test]
fn flushing_empties_the_batch_in_order() {
    let mut batch = batch();
    let queries = InfluxReporter::flush_batch(&mut batch);
    assert!(batch.is_empty());
    assert_eq!(lines(&queries), expected_lines());
    assert!(InfluxReporter::flush_batch(&mut batch).is_empty());
}

#[test]
fn received_measurements_are_written() {
    let (mut reporter, action) = InfluxReporter::start();
    assert!(matches!(action, ReporterAction::Receive { limit } if limit == BATCH_LIMIT));
    match reporter.step(ReporterEvent::Received(batch())) {
        ReporterAction::Write(queries) => assert_eq!(lines(&queries), expected_lines()),
        other => panic!("{:?}", other),
    }
    assert_eq!(reporter.phase, ReporterPhase::Writing);
    assert!(matches!(
        reporter.step(ReporterEvent::Written),
        ReporterAction::Receive { limit: 100 }
    ));
}

#[test]
fn reporter_rests_when_there_is_nothing() {
    let (mut reporter, _) = InfluxReporter::start();
    assert!(matches!(
        reporter.step(ReporterEvent::Received(vec![])),
        ReporterAction::Rest { millis } if millis == REST_MILLIS && millis == 100
    ));
    assert!(matches!(
        reporter.step(ReporterEvent::Rested),
        ReporterAction::Receive { limit: 100 }
    ));
}

#[test]
fn shutdown_writes_what_is_left() {
    let (mut reporter, _) = InfluxReporter::start();
    assert!(matches!(
        reporter.step(ReporterEvent::Shutdown),
        ReporterAction::Drain { limit } if limit == DRAIN_LIMIT && limit == 1000
    ));
    match reporter.step(ReporterEvent::Drained(batch())) {
        ReporterAction::Write(queries) => assert_eq!(lines(&queries), expected_lines()),
        other => panic!("{:?}", other),
    }
    assert!(matches!(reporter.step(ReporterEvent::Written), ReporterAction::Stop));
    assert_eq!(reporter.phase, ReporterPhase::Stopped);
}

#[test]
fn shutdown_with_nothing_left_stops_at_once() {
    let (mut reporter, _) = InfluxReporter::start();
    reporter.step(ReporterEvent::Shutdown);
    assert!(matches!(reporter.step(ReporterEvent::Drained(vec![])), ReporterAction::Stop));
}

#[test]
fn written_batches_are_not_empty_and_keep_to_the_limits() {
    let full = |count: usize| -> Vec<Measurement> {
        (0..count).map(|i| report(Kind::Latency, "c:1", i as u64).at(1)).collect()
    };
    let (mut reporter, _) = InfluxReporter::start();
    for count in [1, 2, BATCH_LIMIT] {
        match reporter.step(ReporterEvent::Received(full(count))) {
            ReporterAction::Write(queries) => assert_eq!(queries.len(), count),
            other => panic!("{:?}", other),
        }
        reporter.step(ReporterEvent::Written);
    }
    assert!(!matches!(
        reporter.step(ReporterEvent::Received(vec![])),
        ReporterAction::Write(_)
    ));
    reporter.step(ReporterEvent::Rested);
    reporter.step(ReporterEvent::Shutdown);
    match reporter.step(ReporterEvent::Drained(full(DRAIN_LIMIT))) {
        ReporterAction::Write(queries) => assert_eq!(queries.len(), DRAIN_LIMIT),
        other => panic!("{:?}", other),
    }
    assert!(matches!(reporter.step(ReporterEvent::Written), ReporterAction::Stop));
}

#[test]
fn copies_of_measurements_are_written_alike() {
    let mut copy = batch().clone();
    let queries = InfluxReporter::flush_batch(&mut copy);
    assert_eq!(lines(&queries), expected_lines());
}
