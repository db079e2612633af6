//! What a receiver measures.
use vstd::prelude::*;

verus! {

/// The two things that are measured.
#[derive(Clone, Copy, Debug, PartialEq, Eq, Structural)]
pub enum Kind {
    PacketLoss,
    Latency,
}

/// A finding that has not been given a time yet: how many packets from `source` did not reach
/// `destination`, or how many microseconds one took.
#[derive(Debug)]
pub struct Report {
    pub kind: Kind,
    pub source: String,
    pub destination: String,
    pub value: u64,
}

/// Packets that were lost on the way. `time` is in nanoseconds since the Unix epoch.
#[derive(Clone, Debug)]
pub struct PacketLoss {
    pub time: u128,
    pub source: String,
    pub destination: String,
    pub value: u64,
}

/// How long a packet was on its way, in microseconds. `time` is in nanoseconds since the Unix
/// epoch.
#[derive(Clone, Debug)]
pub struct Latency {
    pub time: u128,
    pub source: String,
    pub destination: String,
    pub value: u64,
}

/// A finding with its time.
#[derive(Clone, Debug)]
pub enum Measurement {
    PacketLoss(PacketLoss),
    Latency(Latency),
}

/// The content of a [`Report`].
#[verifier::ext_equal]
pub struct ReportView {
    pub kind: Kind,
    pub source: Seq<char>,
    pub destination: Seq<char>,
    pub value: u64,
}

/// The content of a [`Measurement`].
#[verifier::ext_equal]
pub struct MeasurementView {
    pub report: ReportView,
    pub time: u128,
}

impl View for Report {
    type V = ReportView;

    open spec fn view(&self) -> ReportView {
        ReportView {
            kind: self.kind,
            source: self.source@,
            destination: self.destination@,
            value: self.value,
        }
    }
}

impl View for Measurement {
    type V = MeasurementView;

    open spec fn view(&self) -> MeasurementView {
        match self {
            Measurement::PacketLoss(loss) => MeasurementView {
                report: ReportView {
                    kind: Kind::PacketLoss,
                    source: loss.source@,
                    destination: loss.destination@,
                    value: loss.value,
                },
                time: loss.time,
            },
            Measurement::Latency(latency) => MeasurementView {
                report: ReportView {
                    kind: Kind::Latency,
                    source: latency.source@,
                    destination: latency.destination@,
                    value: latency.value,
                },
                time: latency.time,
            },
        }
    }
}

/// The contents of a list of reports.
pub open spec fn report_views(reports: Seq<Report>) -> Seq<ReportView> {
    reports.map_values(|report: Report| report@)
}

impl Report {
    /// The measurement that this report makes at `time`.
    pub fn at(self, time: u128) -> (measurement: Measurement)
        ensures
            measurement@ == (MeasurementView { report: self@, time }),
    {
        match self.kind {
            Kind::PacketLoss => Measurement::PacketLoss(
                PacketLoss {
                    time,
                    source: self.source,
                    destination: self.destination,
                    value: self.value,
                },
            ),
            Kind::Latency => Measurement::Latency(
                Latency {
                    time,
                    source: self.source,
                    destination: self.destination,
                    value: self.value,
                },
            ),
        }
    }
}

/// Giving a report its time changes nothing else: a loss becomes a loss and a latency a latency,
/// with the same source, destination and value, and with that time.
pub proof fn report_keeps_its_content(report: Report, measurement: Measurement, time: u128)
    requires
        measurement@ == (MeasurementView { report: report@, time }),
    ensures
        report.kind == Kind::PacketLoss ==> {
            &&& measurement matches Measurement::PacketLoss(loss)
            &&& loss.time == time
            &&& loss.source@ == report.source@
            &&& loss.destination@ == report.destination@
            &&& loss.value == report.value
        },
        report.kind == Kind::Latency ==> {
            &&& measurement matches Measurement::Latency(latency)
            &&& latency.time == time
            &&& latency.source@ == report.source@
            &&& latency.destination@ == report.destination@
            &&& latency.value == report.value
        },
{
}

} // verus!
