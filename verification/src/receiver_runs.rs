//! What holds of a receiver over whole runs.
use vstd::prelude::*;

use crate::clock::timestamp_of;
use crate::measurement::{report_views, ReportView};
use crate::packet::{decoded, Packet};
use crate::receiver::{
    sources, texts, ReceiverAction, ReceiverEvent, ReceiverView, SenderState, DEAD_AFTER_NANOS,
    TIMEOUT_NANOS,
};
use crate::receiver_laws::{
    delivered, every_packet_brings_its_latency, in_order, is_run, left_out_numbers_are_reported,
    look_finds_exactly_the_silent, loss_found, loss_in, received, received_and_lost_add_up,
    received_and_lost_add_up_from_the_first, receiver_goes_on_until_it_is_stopped,
    tells_of_latency, tells_of_loss,
};

verus! {

/// The reports that an action sends on.
pub open spec fn reports_in(action: ReceiverAction) -> Seq<ReportView> {
    match action {
        ReceiverAction::Receive(sweep) => report_views(sweep.reports@),
        ReceiverAction::Poll(reports) => report_views(reports@),
        ReceiverAction::Stop => Seq::empty(),
    }
}

/// Whether at `event` the sender at `address`, if it is remembered, has not been silent for longer
/// than the receiver allows. Only a look at the senders puts that to the test.
pub open spec fn heard_at(view: ReceiverView, event: ReceiverEvent, address: Seq<char>) -> bool {
    event matches ReceiverEvent::Poll { shutdown, now } ==> (!shutdown && view.senders.contains_key(
        address,
    ) ==> now <= view.senders[address].last_seen + view.timeout)
}

/// Whether the sender at `address` is never silent for longer than the receiver allows, and the
/// receiver does not allow more silence than it takes to be forgotten.
pub open spec fn heard_in_time(
    views: Seq<ReceiverView>,
    events: Seq<ReceiverEvent>,
    address: Seq<char>,
) -> bool {
    &&& views[0].timeout <= DEAD_AFTER_NANOS
    &&& forall|i: int|
        0 <= i < events.len() ==> heard_at(views[i], #[trigger] events[i], address)
}

/// Whether no packet from `address` is its last.
pub open spec fn no_last_packet(events: Seq<ReceiverEvent>, address: Seq<char>) -> bool {
    forall|i: int|
        0 <= i < events.len() ==> (delivered(#[trigger] events[i], address) matches Some(packet)
            ==> !packet.is_final)
}

/// Whether each packet from `address` has a higher number than the one before.
pub open spec fn numbers_rise(
    views: Seq<ReceiverView>,
    events: Seq<ReceiverEvent>,
    address: Seq<char>,
) -> bool {
    forall|i: int|
        0 <= i < events.len() ==> (delivered(#[trigger] events[i], address) matches Some(packet)
            ==> packet.sequence > views[i].senders[address].last_sequence)
}

/// Whether a look at the senders that `action` follows on names `address`, as dead or as silent.
pub open spec fn sweep_names(action: ReceiverAction, address: Seq<char>) -> bool {
    action matches ReceiverAction::Receive(sweep) && (texts(sweep.dead@).contains(address)
        || sources(report_views(sweep.reports@)).contains(address))
}

proof fn lemma_settings_stay(
    views: Seq<ReceiverView>,
    events: Seq<ReceiverEvent>,
    actions: Seq<ReceiverAction>,
    i: int,
)
    requires
        is_run(views, events, actions),
        0 <= i < views.len(),
    ensures
        views[i].local_addr == views[0].local_addr,
        views[i].timeout == views[0].timeout,
    decreases i,
{
    if i > 0 {
        lemma_settings_stay(views, events, actions, i - 1);
        assert(views[i - 1].steps(events[i - 1], views[i], actions[i - 1]));
    }
}

proof fn lemma_heard_is_not_named(
    before: ReceiverView,
    event: ReceiverEvent,
    after: ReceiverView,
    action: ReceiverAction,
    address: Seq<char>,
)
    requires
        before.steps(event, after, action),
        before.timeout <= DEAD_AFTER_NANOS,
        heard_at(before, event, address),
    ensures
        !sweep_names(action, address),
        event is Poll ==> after.senders.contains_key(address) == before.senders.contains_key(
            address,
        ),
        event is Poll && before.senders.contains_key(address) ==> after.senders[address]
            == before.senders[address],
{
    if let ReceiverAction::Receive(sweep) = action {
        let dead = texts(sweep.dead@);
        let named = sources(report_views(sweep.reports@));
        assert(dead.to_set().contains(address) <==> dead.contains(address));
        assert(named.to_set().contains(address) <==> named.contains(address));
    }
}

/// A sender that is remembered, is never silent for longer than allowed and sends no last packet
/// stays remembered, and no look at the senders names it.
pub proof fn who_is_heard_stays_remembered(
    views: Seq<ReceiverView>,
    events: Seq<ReceiverEvent>,
    actions: Seq<ReceiverAction>,
    address: Seq<char>,
)
    requires
        is_run(views, events, actions),
        views[0].senders.contains_key(address),
        heard_in_time(views, events, address),
        no_last_packet(events, address),
    ensures
        forall|i: int|
            0 <= i < views.len() ==> (#[trigger] views[i]).senders.contains_key(address),
        forall|i: int| 0 <= i < actions.len() ==> !sweep_names(#[trigger] actions[i], address),
{
    assert forall|i: int| 0 <= i < views.len() implies (#[trigger] views[i]).senders.contains_key(
        address,
    ) by {
        lemma_stays_remembered(views, events, actions, address, i);
    }
    assert forall|i: int| 0 <= i < actions.len() implies !sweep_names(
        #[trigger] actions[i],
        address,
    ) by {
        lemma_settings_stay(views, events, actions, i);
        assert(heard_at(views[i], events[i], address));
        lemma_heard_is_not_named(views[i], events[i], views[i + 1], actions[i], address);
    }
}

proof fn lemma_stays_remembered(
    views: Seq<ReceiverView>,
    events: Seq<ReceiverEvent>,
    actions: Seq<ReceiverAction>,
    address: Seq<char>,
    i: int,
)
    requires
        is_run(views, events, actions),
        views[0].senders.contains_key(address),
        heard_in_time(views, events, address),
        no_last_packet(events, address),
        0 <= i < views.len(),
    ensures
        views[i].senders.contains_key(address),
    decreases i,
{
    if i > 0 {
        lemma_stays_remembered(views, events, actions, address, i - 1);
        lemma_settings_stay(views, events, actions, i - 1);
        let event = events[i - 1];
        assert(heard_at(views[i - 1], event, address));
        assert(views[i - 1].steps(event, views[i], actions[i - 1]));
        assert(delivered(event, address) matches Some(packet) ==> !packet.is_final);
        lemma_heard_is_not_named(views[i - 1], event, views[i], actions[i - 1], address);
    }
}

/// The sum of all losses from `address` that are reported, by packets and by looks at the senders.
pub open spec fn loss_reported(actions: Seq<ReceiverAction>, address: Seq<char>) -> nat
    decreases actions.len(),
{
    if actions.len() == 0 {
        0
    } else {
        loss_reported(actions.drop_last(), address) + loss_in(reports_in(actions.last()), address)
    }
}

proof fn lemma_no_loss_of_others(reports: Seq<ReportView>, address: Seq<char>)
    requires
        !sources(reports).contains(address),
    ensures
        loss_in(reports, address) == 0,
    decreases reports.len(),
{
    if reports.len() > 0 {
        assert(sources(reports)[reports.len() - 1] == reports.last().source);
        assert forall|i: int| 0 <= i < reports.drop_last().len() implies sources(
            reports.drop_last(),
        )[i] != address by {
            assert(sources(reports)[i] == reports[i].source);
        }
        lemma_no_loss_of_others(reports.drop_last(), address);
    }
}

proof fn lemma_reported_is_found(actions: Seq<ReceiverAction>, address: Seq<char>)
    requires
        forall|i: int| 0 <= i < actions.len() ==> !sweep_names(#[trigger] actions[i], address),
    ensures
        loss_reported(actions, address) == loss_found(actions, address),
    decreases actions.len(),
{
    if actions.len() > 0 {
        assert forall|i: int| 0 <= i < actions.drop_last().len() implies !sweep_names(
            #[trigger] actions.drop_last()[i],
            address,
        ) by {
            assert(actions.drop_last()[i] == actions[i]);
        }
        lemma_reported_is_found(actions.drop_last(), address);
        assert(!sweep_names(actions[actions.len() - 1], address));
        match actions.last() {
            ReceiverAction::Receive(sweep) => {
                lemma_no_loss_of_others(report_views(sweep.reports@), address);
            },
            ReceiverAction::Poll(_) => {},
            ReceiverAction::Stop => {},
        }
    }
}

/// Every number is accounted for as long as a sender is heard: where a remembered sender is never
/// silent for longer than allowed, sends no last packet, and numbers its packets upwards, the
/// packets received and all losses reported of it add up to the numbers that it used.
pub proof fn received_and_lost_add_up_while_heard(
    views: Seq<ReceiverView>,
    events: Seq<ReceiverEvent>,
    actions: Seq<ReceiverAction>,
    address: Seq<char>,
)
    requires
        is_run(views, events, actions),
        views[0].senders.contains_key(address),
        heard_in_time(views, events, address),
        no_last_packet(events, address),
        numbers_rise(views, events, address),
    ensures
        views.last().senders.contains_key(address),
        views.last().senders[address].last_sequence == views[0].senders[address].last_sequence
            + received(events, address) + loss_reported(actions, address),
{
    who_is_heard_stays_remembered(views, events, actions, address);
    assert(in_order(views, events, address));
    received_and_lost_add_up(views, events, actions, address);
    lemma_reported_is_found(actions, address);
    assert(views[views.len() - 1].senders.contains_key(address));
}

/// Every number since a sender's first packet is accounted for as long as the sender is heard:
/// the packets received and all losses reported of it are as many as the numbers from the first
/// packet's to the last's.
pub proof fn received_and_lost_add_up_from_the_first_while_heard(
    views: Seq<ReceiverView>,
    events: Seq<ReceiverEvent>,
    actions: Seq<ReceiverAction>,
    address: Seq<char>,
    first: Packet,
)
    requires
        is_run(views, events, actions),
        events.len() > 0,
        !views[0].senders.contains_key(address),
        delivered(events[0], address) == Some(first),
        heard_in_time(views, events, address),
        no_last_packet(events, address),
        numbers_rise(views.skip(1), events.skip(1), address),
    ensures
        views.last().senders.contains_key(address),
        views.last().senders[address].last_sequence - first.sequence + 1 == received(
            events,
            address,
        ) + loss_reported(actions, address),
{
    let later_views = views.skip(1);
    let later_events = events.skip(1);
    let later_actions = actions.skip(1);
    assert(views[0].steps(events[0], views[1], actions[0]));
    assert(delivered(events[0], address) matches Some(packet) ==> !packet.is_final);
    lemma_settings_stay(views, events, actions, 1);
    assert forall|i: int| 0 <= i < later_events.len() implies {
        &&& later_views[i].steps(#[trigger] later_events[i], later_views[i + 1], later_actions[i])
        &&& heard_at(later_views[i], later_events[i], address)
        &&& (delivered(later_events[i], address) matches Some(packet) ==> !packet.is_final)
    } by {
        assert(later_events[i] == events[i + 1]);
    }
    who_is_heard_stays_remembered(later_views, later_events, later_actions, address);
    assert(in_order(later_views, later_events, address));
    received_and_lost_add_up_from_the_first(views, events, actions, address, first);
    assert forall|i: int| 0 <= i < actions.len() implies !sweep_names(
        #[trigger] actions[i],
        address,
    ) by {
        if i > 0 {
            assert(later_actions[i - 1] == actions[i]);
        }
    }
    lemma_reported_is_found(actions, address);
    assert(later_views[later_views.len() - 1].senders.contains_key(address));
}

/// The packets from `address` that the events deliver, each with the time at which it was read.
pub open spec fn arrivals(events: Seq<ReceiverEvent>, address: Seq<char>) -> Seq<(Packet, u64)>
    decreases events.len(),
{
    if events.len() == 0 {
        Seq::empty()
    } else {
        let earlier = arrivals(events.drop_last(), address);
        match events.last() {
            ReceiverEvent::Datagram { source, bytes, micros, .. } => match decoded(bytes@) {
                Some(packet) => if source@ == address {
                    earlier.push((packet, timestamp_of(micros)))
                } else {
                    earlier
                },
                None => earlier,
            },
            _ => earlier,
        }
    }
}

/// Those of the reports that are about `address`, in their order.
pub open spec fn about(reports: Seq<ReportView>, address: Seq<char>) -> Seq<ReportView>
    decreases reports.len(),
{
    if reports.len() == 0 {
        Seq::empty()
    } else {
        let earlier = about(reports.drop_last(), address);
        if reports.last().source == address {
            earlier.push(reports.last())
        } else {
            earlier
        }
    }
}

/// All reports about `address` that the actions send on, in their order.
pub open spec fn all_about(actions: Seq<ReceiverAction>, address: Seq<char>) -> Seq<ReportView>
    decreases actions.len(),
{
    if actions.len() == 0 {
        Seq::empty()
    } else {
        all_about(actions.drop_last(), address) + about(reports_in(actions.last()), address)
    }
}

/// The number that is remembered of the sender at `address`, if it is remembered.
pub open spec fn remembered(view: ReceiverView, address: Seq<char>) -> Option<u64> {
    if view.senders.contains_key(address) {
        Some(view.senders[address].last_sequence)
    } else {
        None
    }
}

/// The number that is remembered of a sender after its packets have come, if `number` was before.
pub open spec fn number_after(number: Option<u64>, packets: Seq<(Packet, u64)>) -> Option<u64> {
    if packets.len() == 0 {
        number
    } else if packets.last().0.is_final {
        None
    } else {
        Some(packets.last().0.sequence)
    }
}

/// A receiver at `local_addr` that knows nobody but perhaps the sender at `address`, with `number`.
pub open spec fn lone_receiver(
    local_addr: Seq<char>,
    address: Seq<char>,
    number: Option<u64>,
) -> ReceiverView {
    ReceiverView {
        local_addr,
        timeout: 0,
        senders: match number {
            Some(last_sequence) => map![address => SenderState { last_seen: 0, last_sequence }],
            None => Map::empty(),
        },
    }
}

/// The reports that the packets of one sender bring if no other sender exists and nobody is ever
/// silent: they depend on nothing but these packets, the times at which they were read, and the
/// number that was remembered before.
pub open spec fn reports_alone(
    local_addr: Seq<char>,
    address: Seq<char>,
    number: Option<u64>,
    packets: Seq<(Packet, u64)>,
) -> Seq<ReportView>
    decreases packets.len(),
{
    if packets.len() == 0 {
        Seq::empty()
    } else {
        let earlier = packets.drop_last();
        let (packet, now_us) = packets.last();
        reports_alone(local_addr, address, number, earlier) + lone_receiver(
            local_addr,
            address,
            number_after(number, earlier),
        ).packet_reports(address, packet, now_us)
    }
}

proof fn lemma_about_nobody(reports: Seq<ReportView>, address: Seq<char>)
    requires
        !sources(reports).contains(address),
    ensures
        about(reports, address) == Seq::<ReportView>::empty(),
    decreases reports.len(),
{
    if reports.len() > 0 {
        assert(sources(reports)[reports.len() - 1] == reports.last().source);
        assert forall|i: int| 0 <= i < reports.drop_last().len() implies sources(
            reports.drop_last(),
        )[i] != address by {
            assert(sources(reports)[i] == reports[i].source);
        }
        lemma_about_nobody(reports.drop_last(), address);
    }
}

proof fn lemma_about_all(reports: Seq<ReportView>, address: Seq<char>)
    requires
        forall|i: int| 0 <= i < reports.len() ==> (#[trigger] reports[i]).source == address,
    ensures
        about(reports, address) == reports,
    decreases reports.len(),
{
    if reports.len() > 0 {
        lemma_about_all(reports.drop_last(), address);
        assert(reports.drop_last().push(reports.last()) =~= reports);
    }
}

proof fn lemma_step_is_alone(
    before: ReceiverView,
    event: ReceiverEvent,
    after: ReceiverView,
    action: ReceiverAction,
    address: Seq<char>,
)
    requires
        before.steps(event, after, action),
        before.timeout <= DEAD_AFTER_NANOS,
        heard_at(before, event, address),
    ensures
        remembered(after, address) == number_after(
            remembered(before, address),
            arrivals(seq![event], address),
        ),
        about(reports_in(action), address) == reports_alone(
            before.local_addr,
            address,
            remembered(before, address),
            arrivals(seq![event], address),
        ),
{
    let packets = arrivals(seq![event], address);
    assert(seq![event].drop_last() =~= Seq::empty());
    reveal_with_fuel(arrivals, 2);
    reveal_with_fuel(reports_alone, 2);
    let reports = reports_in(action);
    lemma_heard_is_not_named(before, event, after, action, address);
    match event {
        ReceiverEvent::Poll { shutdown, now } => {
            lemma_about_nobody(reports, address);
        },
        ReceiverEvent::Datagram { source, bytes, micros, seen_at } => {
            match decoded(bytes@) {
                Some(packet) => {
                    assert(forall|i: int|
                        0 <= i < reports.len() ==> (#[trigger] reports[i]).source == source@);
                    if source@ == address {
                        assert(packets =~= seq![(packet, timestamp_of(micros))]);
                        assert(packets.drop_last() =~= Seq::empty());
                        lemma_about_all(reports, address);
                        assert(reports =~= lone_receiver(
                            before.local_addr,
                            address,
                            remembered(before, address),
                        ).packet_reports(address, packet, timestamp_of(micros)));
                    } else {
                        lemma_about_nobody(reports, address);
                    }
                },
                None => {
                    lemma_about_nobody(reports, address);
                },
            }
        },
        _ => {
            lemma_about_nobody(reports, address);
        },
    }
}

proof fn lemma_arrivals_append(
    events: Seq<ReceiverEvent>,
    event: ReceiverEvent,
    address: Seq<char>,
)
    ensures
        arrivals(events.push(event), address) == arrivals(events, address) + arrivals(
            seq![event],
            address,
        ),
        arrivals(seq![event], address).len() <= 1,
{
    assert(events.push(event).drop_last() =~= events);
    assert(seq![event].drop_last() =~= Seq::empty());
    reveal_with_fuel(arrivals, 2);
}

/// What is reported of a sender that is never silent for longer than allowed depends on its own
/// packets alone, on when they were read, and on the number remembered before. Packets of other
/// senders, unreadable datagrams, empty rounds and looks at the senders leave no trace in it.
pub proof fn reports_depend_on_own_packets_alone(
    views: Seq<ReceiverView>,
    events: Seq<ReceiverEvent>,
    actions: Seq<ReceiverAction>,
    address: Seq<char>,
)
    requires
        is_run(views, events, actions),
        heard_in_time(views, events, address),
    ensures
        remembered(views.last(), address) == number_after(
            remembered(views[0], address),
            arrivals(events, address),
        ),
        all_about(actions, address) == reports_alone(
            views[0].local_addr,
            address,
            remembered(views[0], address),
            arrivals(events, address),
        ),
    decreases events.len(),
{
    if events.len() > 0 {
        let n = events.len() - 1;
        let earlier = arrivals(events.drop_last(), address);
        let packets = arrivals(events, address);
        assert forall|i: int| 0 <= i < n implies {
            &&& views.drop_last()[i].steps(
                #[trigger] events.drop_last()[i],
                views.drop_last()[i + 1],
                actions.drop_last()[i],
            )
            &&& heard_at(views.drop_last()[i], events.drop_last()[i], address)
        } by {
            assert(events.drop_last()[i] == events[i]);
        }
        reports_depend_on_own_packets_alone(
            views.drop_last(),
            events.drop_last(),
            actions.drop_last(),
            address,
        );
        lemma_settings_stay(views, events, actions, n);
        assert(heard_at(views[n], events[n], address));
        assert(views[n].steps(events[n], views[n + 1], actions[n]));
        lemma_step_is_alone(views[n], events[n], views[n + 1], actions[n], address);
        assert(events.drop_last().push(events[n]) =~= events);
        lemma_arrivals_append(events.drop_last(), events[n], address);
        let last = arrivals(seq![events[n]], address);
        if last.len() == 0 {
            assert(packets =~= earlier);
        } else {
            assert(packets.drop_last() =~= earlier);
            assert(last.drop_last() =~= Seq::empty());
            reveal_with_fuel(reports_alone, 2);
        }
    }
}

/// Senders do not disturb each other: two runs of receivers at one address that remember the same
/// number of a sender, and in which the same packets of that sender are read at the same times,
/// make the same reports about it in the same order, whatever else happens in them, as long as the
/// sender is never silent for longer than allowed.
pub proof fn senders_do_not_disturb_each_other(
    views: Seq<ReceiverView>,
    events: Seq<ReceiverEvent>,
    actions: Seq<ReceiverAction>,
    other_views: Seq<ReceiverView>,
    other_events: Seq<ReceiverEvent>,
    other_actions: Seq<ReceiverAction>,
    address: Seq<char>,
)
    requires
        is_run(views, events, actions),
        is_run(other_views, other_events, other_actions),
        heard_in_time(views, events, address),
        heard_in_time(other_views, other_events, address),
        views[0].local_addr == other_views[0].local_addr,
        remembered(views[0], address) == remembered(other_views[0], address),
        arrivals(events, address) == arrivals(other_events, address),
    ensures
        all_about(actions, address) == all_about(other_actions, address),
        remembered(views.last(), address) == remembered(other_views.last(), address),
{
    reports_depend_on_own_packets_alone(views, events, actions, address);
    reports_depend_on_own_packets_alone(other_views, other_events, other_actions, address);
}

/// Whether `event` delivers `packet` from `address`, and the clock showed `seen_at` when the sender
/// was noted down.
pub open spec fn delivers(
    event: ReceiverEvent,
    address: Seq<char>,
    packet: Packet,
    seen_at: u128,
) -> bool {
    event matches ReceiverEvent::Datagram { source, bytes, seen_at: noted, .. } && source@
        == address && decoded(bytes@) == Some(packet) && noted == seen_at
}

/// Whether no event from `i` on and before `k` delivers a packet from `address`.
pub open spec fn nothing_from(
    events: Seq<ReceiverEvent>,
    address: Seq<char>,
    i: int,
    k: int,
) -> bool {
    forall|j: int| i <= j < k ==> delivered(#[trigger] events[j], address) is None
}

/// Whether every look at the senders from event `i` on and before event `k` comes at a time up to
/// `limit`.
pub open spec fn looks_until(events: Seq<ReceiverEvent>, limit: int, i: int, k: int) -> bool {
    forall|j: int|
        i <= j < k ==> (#[trigger] events[j] matches ReceiverEvent::Poll { shutdown, now } ==> (
        !shutdown ==> now <= limit))
}

/// Whether a look at the senders names `address` as dead.
pub open spec fn names_as_dead(action: ReceiverAction, address: Seq<char>) -> bool {
    action matches ReceiverAction::Receive(sweep) && exists|i: int|
        0 <= i < sweep.dead@.len() && (#[trigger] sweep.dead@[i])@ == address
}

/// Whether a look at the senders says that one packet from `address` to `destination` was lost.
pub open spec fn names_as_silent(
    action: ReceiverAction,
    address: Seq<char>,
    destination: Seq<char>,
) -> bool {
    action matches ReceiverAction::Receive(sweep) && exists|i: int|
        0 <= i < sweep.reports@.len() && tells_of_loss(
            #[trigger] sweep.reports@[i],
            address,
            destination,
            1,
        )
}

/// Whether a look at the senders says nothing of `address`.
pub open spec fn names_not_at_all(action: ReceiverAction, address: Seq<char>) -> bool {
    action matches ReceiverAction::Receive(sweep) && {
        &&& forall|i: int| 0 <= i < sweep.dead@.len() ==> (#[trigger] sweep.dead@[i])@ != address
        &&& forall|i: int|
            0 <= i < sweep.reports@.len() ==> (#[trigger] sweep.reports@[i]).source@ != address
    }
}

/// Whether `action` sends on one report, that a packet from `address` to `destination` took
/// `latency` microseconds.
pub open spec fn brings_latency_only(
    action: ReceiverAction,
    address: Seq<char>,
    destination: Seq<char>,
    latency: int,
) -> bool {
    action matches ReceiverAction::Poll(reports) && reports@.len() == 1 && tells_of_latency(
        reports@[0],
        address,
        destination,
        latency,
    )
}

proof fn lemma_remembered_since(
    views: Seq<ReceiverView>,
    events: Seq<ReceiverEvent>,
    actions: Seq<ReceiverAction>,
    address: Seq<char>,
    packet: Packet,
    seen_at: u128,
    i: int,
    k: int,
)
    requires
        is_run(views, events, actions),
        0 <= i < k <= events.len(),
        delivers(events[i], address, packet, seen_at),
        !packet.is_final,
        nothing_from(events, address, i + 1, k),
        looks_until(events, seen_at + 60_000_000_000, i + 1, k),
    ensures
        views[k].senders.contains_key(address),
        views[k].senders[address].last_seen == seen_at,
        views[k].senders[address].last_sequence == packet.sequence,
    decreases k,
{
    assert(views[k - 1].steps(events[k - 1], views[k], actions[k - 1]));
    if k - 1 > i {
        lemma_remembered_since(views, events, actions, address, packet, seen_at, i, k - 1);
        assert(delivered(events[k - 1], address) is None);
        match events[k - 1] {
            ReceiverEvent::Poll { shutdown, now } => {
                if !shutdown {
                    look_finds_exactly_the_silent(
                        views[k - 1],
                        now,
                        views[k],
                        actions[k - 1],
                        address,
                    );
                }
            },
            _ => {},
        }
    }
}

proof fn lemma_unknown_since(
    views: Seq<ReceiverView>,
    events: Seq<ReceiverEvent>,
    actions: Seq<ReceiverAction>,
    address: Seq<char>,
    i: int,
    k: int,
)
    requires
        is_run(views, events, actions),
        0 <= i <= k <= events.len(),
        !views[i].senders.contains_key(address),
        nothing_from(events, address, i, k),
    ensures
        !views[k].senders.contains_key(address),
    decreases k,
{
    if k > i {
        lemma_unknown_since(views, events, actions, address, i, k - 1);
        assert(views[k - 1].steps(events[k - 1], views[k], actions[k - 1]));
        assert(delivered(events[k - 1], address) is None);
    }
}

/// Silence counts from the sender's last packet, by the times of the events alone. Where that
/// packet was noted down at `seen_at`, a look at the senders at `now` does not name the sender up
/// to `seen_at` and the time allowed; says after that, and up to a minute, that one packet was
/// lost; and names it as dead later than that, and only then forgets it. Looks in between make no
/// difference as long as they come within that minute.
pub proof fn silence_counts_from_the_last_packet(
    views: Seq<ReceiverView>,
    events: Seq<ReceiverEvent>,
    actions: Seq<ReceiverAction>,
    address: Seq<char>,
    packet: Packet,
    seen_at: u128,
    i: int,
    k: int,
    now: u128,
)
    requires
        is_run(views, events, actions),
        0 <= i < k < events.len(),
        delivers(events[i], address, packet, seen_at),
        !packet.is_final,
        nothing_from(events, address, i + 1, k),
        looks_until(events, seen_at + 60_000_000_000, i + 1, k),
        events[k] == (ReceiverEvent::Poll { shutdown: false, now }),
    ensures
        now <= seen_at + views[0].timeout && now <= seen_at + 60_000_000_000 ==> names_not_at_all(
            actions[k],
            address,
        ),
        seen_at + views[0].timeout < now && now <= seen_at + 60_000_000_000 ==> {
            &&& names_as_silent(actions[k], address, views[0].local_addr)
            &&& !names_as_dead(actions[k], address)
        },
        now > seen_at + 60_000_000_000 ==> {
            &&& names_as_dead(actions[k], address)
            &&& !names_as_silent(actions[k], address, views[0].local_addr)
        },
        views[k + 1].senders.contains_key(address) <==> now <= seen_at + 60_000_000_000,
{
    lemma_remembered_since(views, events, actions, address, packet, seen_at, i, k);
    lemma_settings_stay(views, events, actions, k);
    assert(views[k].steps(events[k], views[k + 1], actions[k]));
    look_finds_exactly_the_silent(views[k], now, views[k + 1], actions[k], address);
    if let ReceiverAction::Receive(sweep) = actions[k] {
        if seen_at + views[0].timeout < now && now <= seen_at + 60_000_000_000 {
            let j = choose|j: int|
                0 <= j < sweep.reports@.len() && (#[trigger] sweep.reports@[j]).source@ == address;
            assert(tells_of_loss(sweep.reports@[j], address, views[0].local_addr, 1));
        }
    }
}

/// With the patience that the program has, a sender is let alone for five seconds after its last
/// packet, counted as losing a packet at every look after that, and given up after a minute.
pub proof fn five_seconds_and_a_minute(
    views: Seq<ReceiverView>,
    events: Seq<ReceiverEvent>,
    actions: Seq<ReceiverAction>,
    address: Seq<char>,
    packet: Packet,
    seen_at: u128,
    i: int,
    k: int,
    now: u128,
)
    requires
        is_run(views, events, actions),
        views[0].timeout == TIMEOUT_NANOS,
        0 <= i < k < events.len(),
        delivers(events[i], address, packet, seen_at),
        !packet.is_final,
        nothing_from(events, address, i + 1, k),
        looks_until(events, seen_at + 60_000_000_000, i + 1, k),
        events[k] == (ReceiverEvent::Poll { shutdown: false, now }),
    ensures
        now <= seen_at + 5_000_000_000 <==> names_not_at_all(actions[k], address),
        seen_at + 5_000_000_000 < now && now <= seen_at + 60_000_000_000 <==> names_as_silent(
            actions[k],
            address,
            views[0].local_addr,
        ),
        now > seen_at + 60_000_000_000 <==> names_as_dead(actions[k], address),
{
    silence_counts_from_the_last_packet(
        views,
        events,
        actions,
        address,
        packet,
        seen_at,
        i,
        k,
        now,
    );
}

/// What a packet tells depends on the packet before it from the same address, by the events alone:
/// the numbers left out between the two are reported as lost, in one report in front of the
/// latency; where none were left out, the latency is all. Behind the highest number the numbers
/// begin again at 0. Whatever happens in between makes no difference, as long as no look at the
/// senders comes more than a minute after the earlier packet.
pub proof fn gap_since_the_last_packet_is_reported(
    views: Seq<ReceiverView>,
    events: Seq<ReceiverEvent>,
    actions: Seq<ReceiverAction>,
    address: Seq<char>,
    earlier: Packet,
    seen_at: u128,
    i: int,
    later: Packet,
    k: int,
)
    requires
        is_run(views, events, actions),
        0 <= i < k < events.len(),
        delivers(events[i], address, earlier, seen_at),
        !earlier.is_final,
        nothing_from(events, address, i + 1, k),
        looks_until(events, seen_at + 60_000_000_000, i + 1, k),
        delivered(events[k], address) == Some(later),
        !later.is_final,
        events[k].receivable(),
    ensures
        ({
            let latency = events[k]->micros % 0x1_0000_0000_0000_0000 - later.timestamp_us;
            let here = views[0].local_addr;
            &&& later.sequence > earlier.sequence + 1 ==> {
                &&& actions[k] matches ReceiverAction::Poll(reports)
                &&& reports@.len() == 2
                &&& tells_of_loss(
                    reports@[0],
                    address,
                    here,
                    later.sequence - earlier.sequence - 1,
                )
                &&& tells_of_latency(reports@[1], address, here, latency)
            }
            &&& later.sequence <= earlier.sequence + 1 && earlier.sequence < u64::MAX
                ==> brings_latency_only(actions[k], address, here, latency)
            &&& earlier.sequence == u64::MAX && 0 < later.sequence < u64::MAX ==> {
                &&& actions[k] matches ReceiverAction::Poll(reports)
                &&& reports@.len() == 2
                &&& tells_of_loss(reports@[0], address, here, later.sequence as int)
                &&& tells_of_latency(reports@[1], address, here, latency)
            }
            &&& earlier.sequence == u64::MAX && (later.sequence == 0 || later.sequence == u64::MAX)
                ==> brings_latency_only(actions[k], address, here, latency)
        }),
{
    lemma_remembered_since(views, events, actions, address, earlier, seen_at, i, k);
    lemma_settings_stay(views, events, actions, k);
    assert(views[k].steps(events[k], views[k + 1], actions[k]));
    every_packet_brings_its_latency(views[k], events[k], views[k + 1], actions[k], later);
    left_out_numbers_are_reported(views[k], events[k], views[k + 1], actions[k], later);
}

/// A sender that is not known begins afresh, whatever its number: no look at the senders names it,
/// and its first packet brings the latency and nothing else.
pub proof fn unknown_sender_begins_afresh(
    views: Seq<ReceiverView>,
    events: Seq<ReceiverEvent>,
    actions: Seq<ReceiverAction>,
    address: Seq<char>,
    i: int,
    k: int,
)
    requires
        is_run(views, events, actions),
        0 <= i <= k < events.len(),
        !views[i].senders.contains_key(address),
        nothing_from(events, address, i, k),
    ensures
        events[k] matches ReceiverEvent::Poll { shutdown, .. } ==> (!shutdown ==> names_not_at_all(
            actions[k],
            address,
        )),
        delivered(events[k], address) matches Some(packet) ==> (!packet.is_final
            && events[k].receivable() ==> brings_latency_only(
            actions[k],
            address,
            views[0].local_addr,
            events[k]->micros % 0x1_0000_0000_0000_0000 - packet.timestamp_us,
        )),
{
    lemma_unknown_since(views, events, actions, address, i, k);
    lemma_settings_stay(views, events, actions, k);
    assert(views[k].steps(events[k], views[k + 1], actions[k]));
    match events[k] {
        ReceiverEvent::Poll { shutdown, now } => {
            if !shutdown {
                look_finds_exactly_the_silent(views[k], now, views[k + 1], actions[k], address);
            }
        },
        _ => {},
    }
    if let Some(packet) = delivered(events[k], address) {
        if !packet.is_final && events[k].receivable() {
            every_packet_brings_its_latency(views[k], events[k], views[k + 1], actions[k], packet);
            left_out_numbers_are_reported(views[k], events[k], views[k + 1], actions[k], packet);
        }
    }
}

/// A sender that has said goodbye is no longer known: its last packet brings no report, no look at
/// the senders names it afterwards, and the next packet from its address brings the latency and
/// nothing else, whatever its number.
pub proof fn goodbye_is_the_end(
    views: Seq<ReceiverView>,
    events: Seq<ReceiverEvent>,
    actions: Seq<ReceiverAction>,
    address: Seq<char>,
    packet: Packet,
    i: int,
    k: int,
)
    requires
        is_run(views, events, actions),
        0 <= i < k < events.len(),
        delivered(events[i], address) == Some(packet),
        packet.is_final,
        nothing_from(events, address, i + 1, k),
    ensures
        actions[i] matches ReceiverAction::Poll(reports) && reports@.len() == 0,
        !views[i + 1].senders.contains_key(address),
        events[k] matches ReceiverEvent::Poll { shutdown, .. } ==> (!shutdown ==> names_not_at_all(
            actions[k],
            address,
        )),
        delivered(events[k], address) matches Some(next) ==> (!next.is_final
            && events[k].receivable() ==> brings_latency_only(
            actions[k],
            address,
            views[0].local_addr,
            events[k]->micros % 0x1_0000_0000_0000_0000 - next.timestamp_us,
        )),
{
    assert(views[i].steps(events[i], views[i + 1], actions[i]));
    receiver_goes_on_until_it_is_stopped(views[i], events[i], views[i + 1], actions[i]);
    unknown_sender_begins_afresh(views, events, actions, address, i + 1, k);
}

/// A sender that was given up begins afresh: once a look at the senders came more than a minute
/// after its last packet, no further look names it, and its next packet brings the latency and
/// nothing else, whatever its number.
pub proof fn who_was_given_up_begins_afresh(
    views: Seq<ReceiverView>,
    events: Seq<ReceiverEvent>,
    actions: Seq<ReceiverAction>,
    address: Seq<char>,
    packet: Packet,
    seen_at: u128,
    i: int,
    look: int,
    now: u128,
    k: int,
)
    requires
        is_run(views, events, actions),
        0 <= i < look < k < events.len(),
        delivers(events[i], address, packet, seen_at),
        !packet.is_final,
        nothing_from(events, address, i + 1, k),
        looks_until(events, seen_at + 60_000_000_000, i + 1, look),
        events[look] == (ReceiverEvent::Poll { shutdown: false, now }),
        now > seen_at + 60_000_000_000,
    ensures
        names_as_dead(actions[look], address),
        events[k] matches ReceiverEvent::Poll { shutdown, .. } ==> (!shutdown ==> names_not_at_all(
            actions[k],
            address,
        )),
        delivered(events[k], address) matches Some(next) ==> (!next.is_final
            && events[k].receivable() ==> brings_latency_only(
            actions[k],
            address,
            views[0].local_addr,
            events[k]->micros % 0x1_0000_0000_0000_0000 - next.timestamp_us,
        )),
{
    silence_counts_from_the_last_packet(
        views,
        events,
        actions,
        address,
        packet,
        seen_at,
        i,
        look,
        now,
    );
    unknown_sender_begins_afresh(views, events, actions, address, look + 1, k);
}

} // verus!
