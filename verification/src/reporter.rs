//! The reporting side: which measurements are written when.
use influxdb::WriteQuery;
use vstd::prelude::*;

use crate::influx::{is_point_of, points_hold_the_measurements, writes, writes_all};
use crate::measurement::Measurement;

verus! {

/// How many measurements are taken at a time while the program runs.
pub const BATCH_LIMIT: usize = 100;

/// How many measurements are taken once more when the program ends.
pub const DRAIN_LIMIT: usize = 1000;

/// How long to rest, in milliseconds, when there was nothing to take.
pub const REST_MILLIS: u64 = 100;

/// What a reporter is waiting for.
#[derive(Clone, Copy, Debug, PartialEq, Eq, Structural)]
pub enum ReporterPhase {
    /// For measurements, or for the end.
    Receiving,
    /// For a batch to be written.
    Writing,
    /// For a rest to be over.
    Resting,
    /// For the measurements that are left.
    Draining,
    /// For the last batch to be written.
    Finishing,
    /// For nothing any more.
    Stopped,
}

/// The state of the reporting side.
#[derive(Clone, Copy, Debug, PartialEq, Eq, Structural)]
pub struct InfluxReporter {
    pub phase: ReporterPhase,
}

/// What befalls a reporter.
#[derive(Debug)]
pub enum ReporterEvent {
    /// These measurements were taken; none, if there will be no more.
    Received(Vec<Measurement>),
    /// The reporter was asked to stop.
    Shutdown,
    /// These measurements were left.
    Drained(Vec<Measurement>),
    /// The batch was written, or could not be.
    Written,
    /// The rest is over.
    Rested,
}

/// What a reporter wants done.
#[derive(Debug)]
pub enum ReporterAction {
    /// Take up to so many measurements as soon as there are any, unless asked to stop before.
    Receive { limit: usize },
    /// Write these points.
    Write(Vec<WriteQuery>),
    /// Rest for so many milliseconds.
    Rest { millis: u64 },
    /// Take up to so many of the measurements that are left.
    Drain { limit: usize },
    /// Stop reporting.
    Stop,
}

impl ReporterEvent {
    /// The measurements that the event brings.
    pub open spec fn measurements(self) -> Seq<Measurement> {
        match self {
            ReporterEvent::Received(batch) => batch@,
            ReporterEvent::Drained(batch) => batch@,
            _ => Seq::empty(),
        }
    }
}

impl ReporterAction {
    /// The points that the action writes.
    pub open spec fn queries(self) -> Seq<WriteQuery> {
        match self {
            ReporterAction::Write(queries) => queries@,
            _ => Seq::empty(),
        }
    }
}

impl InfluxReporter {
    /// Whether `event` can come now.
    pub open spec fn awaits(self, event: ReporterEvent) -> bool {
        match self.phase {
            ReporterPhase::Receiving => event is Received || event is Shutdown,
            ReporterPhase::Writing => event is Written,
            ReporterPhase::Resting => event is Rested,
            ReporterPhase::Draining => event is Drained,
            ReporterPhase::Finishing => event is Written,
            ReporterPhase::Stopped => false,
        }
    }

    /// Whether `event` leads from this reporter to `after` and calls for `action`.
    pub open spec fn steps(
        self,
        event: ReporterEvent,
        after: InfluxReporter,
        action: ReporterAction,
    ) -> bool {
        match event {
            ReporterEvent::Received(batch) => if batch@.len() > 0 {
                &&& after.phase is Writing
                &&& action matches ReporterAction::Write(queries)
                &&& writes_all(queries@, batch@)
            } else {
                after.phase is Resting && action == (ReporterAction::Rest { millis: REST_MILLIS })
            },
            ReporterEvent::Shutdown => after.phase is Draining && action == (
            ReporterAction::Drain { limit: DRAIN_LIMIT }),
            ReporterEvent::Drained(batch) => if batch@.len() > 0 {
                &&& after.phase is Finishing
                &&& action matches ReporterAction::Write(queries)
                &&& writes_all(queries@, batch@)
            } else {
                after.phase is Stopped && action is Stop
            },
            ReporterEvent::Written => if self.phase is Finishing {
                after.phase is Stopped && action is Stop
            } else {
                after.phase is Receiving && action == (ReporterAction::Receive {
                    limit: BATCH_LIMIT,
                })
            },
            ReporterEvent::Rested => after.phase is Receiving && action == (
            ReporterAction::Receive { limit: BATCH_LIMIT }),
        }
    }

    /// A reporter that begins to receive, and the first thing that it wants done.
    pub fn start() -> (begun: (InfluxReporter, ReporterAction))
        ensures
            begun.0.phase is Receiving,
            begun.1 == (ReporterAction::Receive { limit: BATCH_LIMIT }),
    {
        (
            InfluxReporter { phase: ReporterPhase::Receiving },
            ReporterAction::Receive { limit: BATCH_LIMIT },
        )
    }

    /// Takes the measurements out of `batch` and turns them into points, in their order.
    pub fn flush_batch(batch: &mut Vec<Measurement>) -> (queries: Vec<WriteQuery>)
        ensures
            final(batch)@ == Seq::<Measurement>::empty(),
            writes_all(queries@, old(batch)@),
    {
        let mut taken: Vec<Measurement> = Vec::new();
        std::mem::swap(&mut taken, batch);
        let ghost all = taken@;
        let mut queries: Vec<WriteQuery> = Vec::new();
        for measurement in it: taken
            invariant
                it.seq() == all,
                queries@.len() == it.index(),
                forall|i: int|
                    0 <= i < queries@.len() ==> writes(#[trigger] queries@[i], all[i]@),
        {
            let query: WriteQuery = match measurement {
                Measurement::PacketLoss(loss) => loss.into_query("packet_loss"),
                Measurement::Latency(latency) => latency.into_query("latency"),
            };
            queries.push(query);
        }
        queries
    }

    /// Takes in an event and says what is to be done about it.
    pub fn step(&mut self, event: ReporterEvent) -> (action: ReporterAction)
        requires
            old(self).awaits(event),
        ensures
            old(self).steps(event, *final(self), action),
    {
        match event {
            ReporterEvent::Received(received) => {
                let mut batch: Vec<Measurement> = received;
                if batch.len() > 0 {
                    self.phase = ReporterPhase::Writing;
                    ReporterAction::Write(Self::flush_batch(&mut batch))
                } else {
                    self.phase = ReporterPhase::Resting;
                    ReporterAction::Rest { millis: REST_MILLIS }
                }
            },
            ReporterEvent::Shutdown => {
                self.phase = ReporterPhase::Draining;
                ReporterAction::Drain { limit: DRAIN_LIMIT }
            },
            ReporterEvent::Drained(left) => {
                let mut batch: Vec<Measurement> = left;
                if batch.len() > 0 {
                    self.phase = ReporterPhase::Finishing;
                    ReporterAction::Write(Self::flush_batch(&mut batch))
                } else {
                    self.phase = ReporterPhase::Stopped;
                    ReporterAction::Stop
                }
            },
            ReporterEvent::Written => {
                if self.phase == ReporterPhase::Finishing {
                    self.phase = ReporterPhase::Stopped;
                    ReporterAction::Stop
                } else {
                    self.phase = ReporterPhase::Receiving;
                    ReporterAction::Receive { limit: BATCH_LIMIT }
                }
            },
            ReporterEvent::Rested => {
                self.phase = ReporterPhase::Receiving;
                ReporterAction::Receive { limit: BATCH_LIMIT }
            },
        }
    }
}

/// Whether `events` lead through `states` and call for `actions`, one after the other.
pub open spec fn is_reporter_run(
    states: Seq<InfluxReporter>,
    events: Seq<ReporterEvent>,
    actions: Seq<ReporterAction>,
) -> bool {
    &&& states.len() == events.len() + 1
    &&& actions.len() == events.len()
    &&& forall|i: int|
        0 <= i < events.len() ==> {
            &&& states[i].awaits(#[trigger] events[i])
            &&& states[i].steps(events[i], states[i + 1], actions[i])
        }
}

/// All measurements that the events bring, in their order.
pub open spec fn all_measurements(events: Seq<ReporterEvent>) -> Seq<Measurement>
    decreases events.len(),
{
    if events.len() == 0 {
        Seq::empty()
    } else {
        all_measurements(events.drop_last()) + events.last().measurements()
    }
}

/// All points that the actions write, in their order.
pub open spec fn all_queries(actions: Seq<ReporterAction>) -> Seq<WriteQuery>
    decreases actions.len(),
{
    if actions.len() == 0 {
        Seq::empty()
    } else {
        all_queries(actions.drop_last()) + actions.last().queries()
    }
}

/// Every measurement that a reporter takes is handed over to be written, once and in the order in
/// which it was taken, and nothing else is.
pub proof fn all_that_is_taken_is_written(
    states: Seq<InfluxReporter>,
    events: Seq<ReporterEvent>,
    actions: Seq<ReporterAction>,
)
    requires
        is_reporter_run(states, events, actions),
    ensures
        writes_all(all_queries(actions), all_measurements(events)),
    decreases events.len(),
{
    if events.len() > 0 {
        let n = events.len() - 1;
        assert forall|i: int| 0 <= i < n implies {
            &&& states.drop_last()[i].awaits(#[trigger] events.drop_last()[i])
            &&& states.drop_last()[i].steps(
                events.drop_last()[i],
                states.drop_last()[i + 1],
                actions.drop_last()[i],
            )
        } by {
            assert(events.drop_last()[i] == events[i]);
        }
        all_that_is_taken_is_written(states.drop_last(), events.drop_last(), actions.drop_last());
        assert(states[n].steps(events[n], states[n + 1], actions[n]));
        assert(writes_all(actions.last().queries(), events.last().measurements()));
    }
}

/// Whether the event brings no more measurements than are asked for at a time.
pub open spec fn within_limit(event: ReporterEvent) -> bool {
    match event {
        ReporterEvent::Received(batch) => batch@.len() <= BATCH_LIMIT,
        ReporterEvent::Drained(batch) => batch@.len() <= DRAIN_LIMIT,
        _ => true,
    }
}

/// Measurements come only when they were asked for, and the limit that they have to keep to is the
/// one that was asked for.
pub proof fn measurements_are_asked_for(
    states: Seq<InfluxReporter>,
    events: Seq<ReporterEvent>,
    actions: Seq<ReporterAction>,
    i: int,
)
    requires
        is_reporter_run(states, events, actions),
        0 < i < events.len(),
    ensures
        events[i] is Received ==> actions[i - 1] == (ReporterAction::Receive {
            limit: BATCH_LIMIT,
        }),
        events[i] is Drained ==> actions[i - 1] == (ReporterAction::Drain { limit: DRAIN_LIMIT }),
{
    assert(states[i].awaits(events[i]));
    assert(states[i - 1].steps(events[i - 1], states[i], actions[i - 1]));
}

/// A batch that is written is never empty and keeps to the limit: where no more measurements come
/// than were asked for, it has no more points than are taken at a time, or, for what is left at
/// the end, than are taken then. Behind that last batch nothing is written.
pub proof fn written_batches_keep_to_the_limits(
    states: Seq<InfluxReporter>,
    events: Seq<ReporterEvent>,
    actions: Seq<ReporterAction>,
    i: int,
)
    requires
        is_reporter_run(states, events, actions),
        forall|j: int| 0 <= j < events.len() ==> within_limit(#[trigger] events[j]),
        0 <= i < actions.len(),
        actions[i] is Write,
    ensures
        events[i] is Received || events[i] is Drained,
        events[i] is Received ==> 1 <= actions[i].queries().len() <= BATCH_LIMIT,
        events[i] is Drained ==> 1 <= actions[i].queries().len() <= DRAIN_LIMIT,
        events[i] is Drained ==> forall|j: int|
            i < j < actions.len() ==> !(#[trigger] actions[j] is Write),
{
    assert(states[i].steps(events[i], states[i + 1], actions[i]));
    if events[i] is Drained {
        if i + 1 < events.len() {
            assert(states[i + 1].awaits(events[i + 1]));
            assert(states[i + 1].steps(events[i + 1], states[i + 2], actions[i + 1]));
        }
        if i + 2 < events.len() {
            assert(states[i + 2].awaits(events[i + 2]));
        }
    }
}

/// A reporter that is asked to stop takes what is left, writes it if there is anything, and then
/// stops; it receives no more.
pub proof fn shutdown_drains_and_stops(
    states: Seq<InfluxReporter>,
    events: Seq<ReporterEvent>,
    actions: Seq<ReporterAction>,
)
    requires
        is_reporter_run(states, events, actions),
        events.len() > 0,
        events[0] is Shutdown,
    ensures
        events.len() <= 3,
        actions[0] == (ReporterAction::Drain { limit: DRAIN_LIMIT }),
        events.len() > 1 ==> events[1] is Drained,
        events.len() == 2 && events[1].measurements().len() == 0 ==> actions[1] is Stop,
        events.len() > 1 && events[1].measurements().len() > 0 ==> writes_all(
            actions[1].queries(),
            events[1].measurements(),
        ),
        events.len() == 3 ==> actions[2] is Stop && events[1].measurements().len() > 0,
{
    assert(states[0].steps(events[0], states[1], actions[0]));
    if events.len() > 1 {
        assert(states[1].steps(events[1], states[2], actions[1]));
    }
    if events.len() > 2 {
        assert(states[2].steps(events[2], states[3], actions[2]));
    }
    if events.len() > 3 {
        assert(states[3].steps(events[3], states[4], actions[3]));
    }
}

/// Measurements that come are written, one point each and in their order, with nothing of them
/// changed. Where none come, the reporter rests for a tenth of a second, or stops if it was asked
/// to.
pub proof fn what_comes_is_written(
    before: InfluxReporter,
    event: ReporterEvent,
    after: InfluxReporter,
    action: ReporterAction,
)
    requires
        before.awaits(event),
        before.steps(event, after, action),
    ensures
        event matches ReporterEvent::Received(batch) ==> {
            &&& batch@.len() > 0 ==> {
                &&& after.phase is Writing
                &&& action matches ReporterAction::Write(queries)
                &&& queries@.len() == batch@.len()
                &&& forall|i: int|
                    0 <= i < batch@.len() ==> is_point_of(#[trigger] queries@[i], batch@[i])
            }
            &&& batch@.len() == 0 ==> {
                &&& after.phase is Resting
                &&& action matches ReporterAction::Rest { millis }
                &&& millis == 100
            }
        },
        event matches ReporterEvent::Drained(batch) ==> {
            &&& batch@.len() > 0 ==> {
                &&& after.phase is Finishing
                &&& action matches ReporterAction::Write(queries)
                &&& queries@.len() == batch@.len()
                &&& forall|i: int|
                    0 <= i < batch@.len() ==> is_point_of(#[trigger] queries@[i], batch@[i])
            }
            &&& batch@.len() == 0 ==> after.phase is Stopped && action is Stop
        },
{
    if let ReporterAction::Write(queries) = action {
        points_hold_the_measurements(queries@, event.measurements());
    }
}

/// After a batch or a rest the reporter asks for up to 100 measurements; asked to stop, for up to
/// 1000 that are left; and after its last batch it stops.
pub proof fn reporter_asks_again_until_it_stops(
    before: InfluxReporter,
    event: ReporterEvent,
    after: InfluxReporter,
    action: ReporterAction,
)
    requires
        before.awaits(event),
        before.steps(event, after, action),
    ensures
        event is Rested || (event is Written && before.phase is Writing) ==> {
            &&& after.phase is Receiving
            &&& action matches ReporterAction::Receive { limit }
            &&& limit == 100
        },
        event is Shutdown ==> {
            &&& after.phase is Draining
            &&& action matches ReporterAction::Drain { limit }
            &&& limit == 1000
        },
        event is Written && before.phase is Finishing ==> after.phase is Stopped && action is Stop,
{
}

/// A reporter that receives can be handed measurements or be stopped; one that writes can be told
/// that the batch is done with; one that rests, that the rest is over; one that drains can be
/// handed what is left; one that has stopped can be told nothing.
pub proof fn reporter_events_come_in_their_time(reporter: InfluxReporter, event: ReporterEvent)
    ensures
        reporter.awaits(event) <==> {
            ||| reporter.phase is Receiving && (event is Received || event is Shutdown)
            ||| reporter.phase is Writing && event is Written
            ||| reporter.phase is Resting && event is Rested
            ||| reporter.phase is Draining && event is Drained
            ||| reporter.phase is Finishing && event is Written
        },
{
}

/// Over any run, the points that are written hold exactly the measurements that came, one each and
/// in their order.
pub proof fn database_gets_what_came(
    states: Seq<InfluxReporter>,
    events: Seq<ReporterEvent>,
    actions: Seq<ReporterAction>,
)
    requires
        is_reporter_run(states, events, actions),
    ensures
        all_queries(actions).len() == all_measurements(events).len(),
        forall|i: int|
            0 <= i < all_queries(actions).len() ==> is_point_of(
                #[trigger] all_queries(actions)[i],
                all_measurements(events)[i],
            ),
{
    all_that_is_taken_is_written(states, events, actions);
    points_hold_the_measurements(all_queries(actions), all_measurements(events));
}

} // verus!
