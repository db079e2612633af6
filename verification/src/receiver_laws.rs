//! What holds of a receiver over one or more rounds.
use vstd::prelude::*;

use crate::clock::timestamp_of;
use crate::measurement::{report_views, Kind, Report, ReportView};
use crate::packet::{decoded, encoded, packet_reads_back, Packet};
use crate::receiver::{
    packets_lost, sources, standing_at, texts, ReceiverAction, ReceiverEvent, ReceiverView, Sweep,
    DEAD_AFTER_NANOS,
};
use crate::sender::{packet_carries_number_and_time, SenderActionView, SenderEvent, UdpSender};

verus! {

/// A gap of `gap` numbers between two packets counts as `gap` lost packets; none is counted where
/// the numbers follow on each other.
pub proof fn gap_is_counted(last: u64, gap: u64)
    requires
        last + 1 + gap <= u64::MAX,
    ensures
        packets_lost(last, (last + 1 + gap) as u64) == gap,
{
}

/// A packet that comes twice, or after a later one, counts as no loss. The highest number is set
/// apart: the one expected after it is 0, so that any other number counts as a gap.
pub proof fn repeated_and_late_packets_lose_nothing(last: u64, sequence: u64)
    requires
        sequence <= last,
        last == u64::MAX ==> sequence == 0 || sequence == u64::MAX,
    ensures
        packets_lost(last, sequence) == 0,
{
}

/// Silence only makes a sender's standing worse: as time goes on, a sender that sends nothing goes
/// from active to timed out to dead, and never back.
pub proof fn silence_only_worsens(earlier: u128, later: u128, last_seen: u128, timeout: u128)
    requires
        earlier <= later,
    ensures
        standing_at(earlier, last_seen, timeout) is Dead ==> standing_at(
            later,
            last_seen,
            timeout,
        ) is Dead,
        standing_at(earlier, last_seen, timeout) is TimedOut ==> !(standing_at(
            later,
            last_seen,
            timeout,
        ) is Active),
{
}

/// A packet tells of its own sender and of nobody else: what is remembered of any other sender
/// stays, and every report is about the packet's sender.
pub proof fn packet_concerns_its_sender_only(
    view: ReceiverView,
    source: Seq<char>,
    other: Seq<char>,
    packet: Packet,
    now_us: u64,
    seen_at: u128,
)
    requires
        other != source,
    ensures
        ({
            let after = view.after_packet(source, packet, seen_at);
            &&& after.senders.contains_key(other) == view.senders.contains_key(other)
            &&& view.senders.contains_key(other) ==> after.senders[other] == view.senders[other]
        }),
        forall|i: int|
            0 <= i < view.packet_reports(source, packet, now_us).len()
                ==> #[trigger] view.packet_reports(source, packet, now_us)[i].source == source,
{
}

/// A look at the senders takes away the dead and nobody else, and changes nothing of those that
/// stay. Nobody dead is left after it, so that a second look at the same moment changes nothing.
pub proof fn sweep_removes_only_the_dead(view: ReceiverView, address: Seq<char>, now: u128)
    ensures
        view.after_sweep(now).senders.contains_key(address) <==> view.senders.contains_key(address)
            && !(view.standing_of(address, now) is Dead),
        view.after_sweep(now).senders.contains_key(address) ==> view.after_sweep(
            now,
        ).senders[address] == view.senders[address],
        view.after_sweep(now).after_sweep(now) == view.after_sweep(now),
{
    let swept = view.after_sweep(now);
    assert(swept.after_sweep(now).senders =~= swept.senders);
}

/// A sender that was heard a minute ago or less is not forgotten by a look at the senders.
pub proof fn sweep_keeps_who_was_heard(view: ReceiverView, address: Seq<char>, now: u128)
    requires
        view.senders.contains_key(address),
        now <= view.senders[address].last_seen + DEAD_AFTER_NANOS,
    ensures
        view.after_sweep(now).senders.contains_key(address),
{
}

/// A sender that was heard within the time allowed is not reported by a look at the senders.
pub proof fn who_was_heard_is_not_reported(
    view: ReceiverView,
    sweep: Sweep,
    address: Seq<char>,
    now: u128,
    i: int,
)
    requires
        view.brings(sweep, now),
        view.senders.contains_key(address),
        now <= view.senders[address].last_seen + view.timeout,
        0 <= i < sweep.reports@.len(),
    ensures
        sweep.reports@[i].source@ != address,
{
    let named = sources(report_views(sweep.reports@));
    assert(named[i] == sweep.reports@[i].source@);
    assert(named.to_set().contains(named[i]));
}

/// The first packet from an address, whatever its number, counts as no loss: it brings its latency
/// and nothing else.
pub proof fn first_packet_loses_nothing(
    view: ReceiverView,
    source: Seq<char>,
    packet: Packet,
    now_us: u64,
)
    requires
        !view.senders.contains_key(source),
        !packet.is_final,
    ensures
        view.packet_reports(source, packet, now_us) == seq![
            ReportView {
                kind: Kind::Latency,
                source,
                destination: view.local_addr,
                value: (now_us - packet.timestamp_us) as u64,
            },
        ],
{
}

/// A sender's last packet brings no report, and after it the sender is not remembered, so that its
/// address may start afresh.
pub proof fn last_packet_ends_a_sender(
    view: ReceiverView,
    source: Seq<char>,
    packet: Packet,
    seen_at: u128,
    now_us: u64,
)
    requires
        packet.is_final,
    ensures
        view.packet_reports(source, packet, now_us) == Seq::<ReportView>::empty(),
        !view.after_packet(source, packet, seen_at).senders.contains_key(source),
{
}

/// Sender and receiver understand each other: what a sender sends on a tick makes the receiver
/// remember it with the number of that packet, and what it sends on its way out makes the receiver
/// forget it.
pub proof fn what_is_sent_is_understood(
    sender: UdpSender,
    sent: SenderEvent,
    before: ReceiverView,
    event: ReceiverEvent,
    after: ReceiverView,
    action: ReceiverAction,
)
    requires
        sender.phase is Waiting,
        sent is Tick || sent is Shutdown,
        event is Datagram,
        sender.next(sent).1 == SenderActionView::Send(event->bytes@),
        before.steps(event, after, action),
    ensures
        sent is Tick ==> {
            &&& after.senders.contains_key(event->source@)
            &&& after.senders[event->source@].last_sequence == sender.sequence
        },
        sent is Shutdown ==> !after.senders.contains_key(event->source@),
{
    let packet = match sent {
        SenderEvent::Tick { micros } => sender.packet_at(micros, false),
        SenderEvent::Shutdown { micros } => sender.packet_at(micros, true),
        _ => sender.packet_at(0, false),
    };
    packet_reads_back(packet, Seq::empty());
    assert(encoded(packet) + Seq::<u8>::empty() =~= encoded(packet));
}

/// Nothing that happens changes the receiver's own address or its patience. A sender comes to be
/// remembered only through a packet of its own, and is forgotten only through its last packet or
/// after more than a minute of silence.
pub proof fn senders_come_and_go_for_a_reason(
    before: ReceiverView,
    event: ReceiverEvent,
    after: ReceiverView,
    action: ReceiverAction,
    address: Seq<char>,
)
    requires
        before.steps(event, after, action),
    ensures
        after.local_addr == before.local_addr,
        after.timeout == before.timeout,
        !before.senders.contains_key(address) && after.senders.contains_key(address) ==> (
        delivered(event, address) matches Some(packet) && !packet.is_final),
        before.senders.contains_key(address) && !after.senders.contains_key(address) ==> {
            ||| (delivered(event, address) matches Some(packet) && packet.is_final)
            ||| (event matches ReceiverEvent::Poll { shutdown, now } && !shutdown && now
                > before.senders[address].last_seen + DEAD_AFTER_NANOS)
        },
{
}

/// The packet from `address` that `event` delivers, if it does.
pub open spec fn delivered(event: ReceiverEvent, address: Seq<char>) -> Option<Packet> {
    match event {
        ReceiverEvent::Datagram { source, bytes, .. } => if source@ == address {
            decoded(bytes@)
        } else {
            None
        },
        _ => None,
    }
}

/// How many packets from `address` the events deliver.
pub open spec fn received(events: Seq<ReceiverEvent>, address: Seq<char>) -> nat
    decreases events.len(),
{
    if events.len() == 0 {
        0
    } else {
        received(events.drop_last(), address) + if delivered(events.last(), address) is Some {
            1nat
        } else {
            0nat
        }
    }
}

/// The sum of the losses from `address` that the reports tell of.
pub open spec fn loss_in(reports: Seq<ReportView>, address: Seq<char>) -> nat
    decreases reports.len(),
{
    if reports.len() == 0 {
        0
    } else {
        loss_in(reports.drop_last(), address) + if reports.last().kind == Kind::PacketLoss
            && reports.last().source == address {
            reports.last().value as nat
        } else {
            0nat
        }
    }
}

/// The sum of the losses from `address` that packets bring to light.
pub open spec fn loss_found(actions: Seq<ReceiverAction>, address: Seq<char>) -> nat
    decreases actions.len(),
{
    if actions.len() == 0 {
        0
    } else {
        loss_found(actions.drop_last(), address) + match actions.last() {
            ReceiverAction::Poll(reports) => loss_in(report_views(reports@), address),
            _ => 0nat,
        }
    }
}

/// Whether `events` lead through `views` and call for `actions`, one after the other.
pub open spec fn is_run(
    views: Seq<ReceiverView>,
    events: Seq<ReceiverEvent>,
    actions: Seq<ReceiverAction>,
) -> bool {
    &&& views.len() == events.len() + 1
    &&& actions.len() == events.len()
    &&& forall|i: int|
        0 <= i < events.len() ==> views[i].steps(#[trigger] events[i], views[i + 1], actions[i])
}

/// Whether the sender at `address` is remembered throughout, and each of its packets has a higher
/// number than the one before.
pub open spec fn in_order(
    views: Seq<ReceiverView>,
    events: Seq<ReceiverEvent>,
    address: Seq<char>,
) -> bool {
    &&& forall|i: int| 0 <= i < views.len() ==> (#[trigger] views[i]).senders.contains_key(address)
    &&& forall|i: int|
        0 <= i < events.len() ==> (delivered(#[trigger] events[i], address) matches Some(packet)
            ==> packet.sequence > views[i].senders[address].last_sequence)
}

proof fn lemma_step_accounts(
    before: ReceiverView,
    event: ReceiverEvent,
    after: ReceiverView,
    action: ReceiverAction,
    address: Seq<char>,
)
    requires
        before.steps(event, after, action),
        before.senders.contains_key(address),
        after.senders.contains_key(address),
        delivered(event, address) matches Some(packet) ==> packet.sequence
            > before.senders[address].last_sequence,
    ensures
        after.senders[address].last_sequence == before.senders[address].last_sequence + received(
            seq![event],
            address,
        ) + loss_found(seq![action], address),
{
    assert(seq![event].drop_last() =~= Seq::empty());
    assert(seq![action].drop_last() =~= Seq::empty());
    reveal_with_fuel(received, 2);
    reveal_with_fuel(loss_found, 2);
    reveal_with_fuel(loss_in, 3);
    match event {
        ReceiverEvent::Datagram { source, bytes, micros, seen_at } => {
            if let Some(packet) = decoded(bytes@) {
                let reports = before.packet_reports(
                    source@,
                    packet,
                    timestamp_of(micros),
                );
                if reports.len() == 2 {
                    assert(reports.drop_last().drop_last() =~= Seq::empty());
                    assert(reports.drop_last().last() == reports[0]);
                } else if reports.len() == 1 {
                    assert(reports.drop_last() =~= Seq::empty());
                }
            }
        },
        _ => {},
    }
}

/// Every number is accounted for: where a sender's packets arrive in order, the packets received
/// and the packets found lost add up to the numbers that it used. Packets of other senders, empty
/// rounds, unreadable datagrams and looks at the senders in between make no difference.
pub proof fn received_and_lost_add_up(
    views: Seq<ReceiverView>,
    events: Seq<ReceiverEvent>,
    actions: Seq<ReceiverAction>,
    address: Seq<char>,
)
    requires
        is_run(views, events, actions),
        in_order(views, events, address),
    ensures
        views.last().senders[address].last_sequence == views[0].senders[address].last_sequence
            + received(events, address) + loss_found(actions, address),
    decreases events.len(),
{
    if events.len() > 0 {
        let n = events.len() - 1;
        assert forall|i: int| 0 <= i < n implies views.drop_last()[i].steps(
            #[trigger] events.drop_last()[i],
            views.drop_last()[i + 1],
            actions.drop_last()[i],
        ) by {
            assert(events.drop_last()[i] == events[i]);
        }
        assert forall|i: int| 0 <= i < n implies (delivered(
            #[trigger] events.drop_last()[i],
            address,
        ) matches Some(packet) ==> packet.sequence
            > views.drop_last()[i].senders[address].last_sequence) by {
            assert(events.drop_last()[i] == events[i]);
        }
        received_and_lost_add_up(
            views.drop_last(),
            events.drop_last(),
            actions.drop_last(),
            address,
        );
        assert(views[n].steps(events[n], views[n + 1], actions[n]));
        assert(delivered(events[n], address) matches Some(packet) ==> packet.sequence
            > views[n].senders[address].last_sequence);
        assert(views[n + 1].senders.contains_key(address));
        lemma_step_accounts(views[n], events[n], views[n + 1], actions[n], address);
        assert(seq![events[n]].drop_last() =~= Seq::empty());
        assert(seq![actions[n]].drop_last() =~= Seq::empty());
        reveal_with_fuel(received, 2);
        reveal_with_fuel(loss_found, 2);
    }
}

proof fn lemma_sums_from_the_front(
    event: ReceiverEvent,
    events: Seq<ReceiverEvent>,
    action: ReceiverAction,
    actions: Seq<ReceiverAction>,
    address: Seq<char>,
)
    requires
        events.len() == actions.len(),
    ensures
        received(seq![event] + events, address) == received(seq![event], address) + received(
            events,
            address,
        ),
        loss_found(seq![action] + actions, address) == loss_found(seq![action], address)
            + loss_found(actions, address),
    decreases events.len(),
{
    if events.len() == 0 {
        assert(seq![event] + events =~= seq![event]);
        assert(seq![action] + actions =~= seq![action]);
    } else {
        lemma_sums_from_the_front(
            event,
            events.drop_last(),
            action,
            actions.drop_last(),
            address,
        );
        assert((seq![event] + events).drop_last() =~= seq![event] + events.drop_last());
        assert((seq![action] + actions).drop_last() =~= seq![action] + actions.drop_last());
    }
}

/// Every number since a sender's first packet is accounted for: where the run begins with the
/// first packet from an address and the later ones arrive in order, the packets received and the
/// packets found lost are as many as the numbers from the first packet's to the last's.
pub proof fn received_and_lost_add_up_from_the_first(
    views: Seq<ReceiverView>,
    events: Seq<ReceiverEvent>,
    actions: Seq<ReceiverAction>,
    address: Seq<char>,
    first: Packet,
)
    requires
        is_run(views, events, actions),
        events.len() > 0,
        !views[0].senders.contains_key(address),
        delivered(events[0], address) == Some(first),
        in_order(views.skip(1), events.skip(1), address),
    ensures
        views.last().senders[address].last_sequence - first.sequence + 1 == received(
            events,
            address,
        ) + loss_found(actions, address),
{
    let later_views = views.skip(1);
    let later_events = events.skip(1);
    let later_actions = actions.skip(1);
    assert forall|i: int| 0 <= i < later_events.len() implies later_views[i].steps(
        #[trigger] later_events[i],
        later_views[i + 1],
        later_actions[i],
    ) by {
        assert(later_events[i] == events[i + 1]);
    }
    received_and_lost_add_up(later_views, later_events, later_actions, address);
    assert(views[0].steps(events[0], views[1], actions[0]));
    assert(later_views[0].senders.contains_key(address));
    assert(seq![events[0]] + later_events =~= events);
    assert(seq![actions[0]] + later_actions =~= actions);
    lemma_sums_from_the_front(events[0], later_events, actions[0], later_actions, address);
    assert(seq![events[0]].drop_last() =~= Seq::empty());
    assert(seq![actions[0]].drop_last() =~= Seq::empty());
    reveal_with_fuel(received, 2);
    reveal_with_fuel(loss_found, 2);
    reveal_with_fuel(loss_in, 2);
    match events[0] {
        ReceiverEvent::Datagram { source, bytes, micros, seen_at } => {
            first_packet_loses_nothing(views[0], source@, first, timestamp_of(micros));
            let reports = views[0].packet_reports(source@, first, timestamp_of(micros));
            assert(reports.drop_last() =~= Seq::empty());
        },
        _ => {},
    }
}

/// Whether `report` says that `value` packets from `source` to `destination` were lost.
pub open spec fn tells_of_loss(
    report: Report,
    source: Seq<char>,
    destination: Seq<char>,
    value: int,
) -> bool {
    &&& report.kind == Kind::PacketLoss
    &&& report.source@ == source
    &&& report.destination@ == destination
    &&& report.value == value
}

/// Whether `report` says that a packet from `source` to `destination` took `value` microseconds.
pub open spec fn tells_of_latency(
    report: Report,
    source: Seq<char>,
    destination: Seq<char>,
    value: int,
) -> bool {
    &&& report.kind == Kind::Latency
    &&& report.source@ == source
    &&& report.destination@ == destination
    &&& report.value == value
}

/// A sender is judged by how long ago it was last heard: it is dead after more than a minute, timed
/// out after more than the time allowed and up to a minute, and active otherwise.
pub proof fn silence_is_judged_by_the_clock(now: u128, last_seen: u128, timeout: u128)
    ensures
        standing_at(now, last_seen, timeout) is Dead <==> now > last_seen + 60_000_000_000,
        standing_at(now, last_seen, timeout) is TimedOut <==> last_seen + timeout < now
            && now <= last_seen + 60_000_000_000,
{
}

/// Behind the highest number the numbers begin again at 0: a packet with any number but that one
/// counts as many lost packets as there are numbers below its own.
pub proof fn numbers_begin_again(sequence: u64)
    requires
        sequence < u64::MAX,
    ensures
        packets_lost(u64::MAX, sequence) == sequence,
{
}

/// An event can be taken in unless it holds a packet that was sent after it was read.
pub proof fn what_was_sent_before_can_be_received(event: ReceiverEvent)
    ensures
        event.receivable() <==> !(event matches ReceiverEvent::Datagram { bytes, micros, .. } && (
        decoded(bytes@) matches Some(packet) && packet.timestamp_us > micros
            % 0x1_0000_0000_0000_0000)),
{
}

/// A packet that is not its sender's last is remembered as it came: with the time at which it was
/// noted down, and with its number.
pub proof fn packet_is_remembered_as_it_came(
    before: ReceiverView,
    event: ReceiverEvent,
    after: ReceiverView,
    action: ReceiverAction,
    packet: Packet,
)
    requires
        before.steps(event, after, action),
        event is Datagram,
        decoded(event->bytes@) == Some(packet),
        !packet.is_final,
    ensures
        after.senders.contains_key(event->source@),
        after.senders[event->source@].last_seen == event->seen_at,
        after.senders[event->source@].last_sequence == packet.sequence,
{
}

/// Every packet that is not its sender's last, from a sender that is known or new, brings its
/// latency as its last report: the time at which it was read less the time at which it was sent.
/// At most one report goes before it, and that one tells of a loss.
pub proof fn every_packet_brings_its_latency(
    before: ReceiverView,
    event: ReceiverEvent,
    after: ReceiverView,
    action: ReceiverAction,
    packet: Packet,
)
    requires
        before.steps(event, after, action),
        event is Datagram,
        event.receivable(),
        decoded(event->bytes@) == Some(packet),
        !packet.is_final,
    ensures
        action matches ReceiverAction::Poll(reports) && {
            &&& 1 <= reports@.len() <= 2
            &&& tells_of_latency(
                reports@.last(),
                event->source@,
                before.local_addr,
                event->micros % 0x1_0000_0000_0000_0000 - packet.timestamp_us,
            )
            &&& event->micros <= u64::MAX ==> reports@.last().value == event->micros
                - packet.timestamp_us
            &&& reports@.len() == 2 ==> reports@[0].kind == Kind::PacketLoss
        },
{
    if let ReceiverAction::Poll(reports) = action {
        let views = report_views(reports@);
        assert(views.len() == reports@.len());
        assert(views.last() == reports@.last()@);
        assert(views[0] == reports@[0]@);
    }
}

/// What a packet from a known sender tells of losses: each number that was left out since the
/// sender's packet before it counts as one lost packet, in one report in front of the latency. A
/// packet that follows on, comes again or comes late tells of none. A packet from a new sender
/// tells of none either.
pub proof fn left_out_numbers_are_reported(
    before: ReceiverView,
    event: ReceiverEvent,
    after: ReceiverView,
    action: ReceiverAction,
    packet: Packet,
)
    requires
        before.steps(event, after, action),
        event is Datagram,
        decoded(event->bytes@) == Some(packet),
        !packet.is_final,
    ensures
        action matches ReceiverAction::Poll(reports) && {
            let last = before.senders[event->source@].last_sequence;
            let known = before.senders.contains_key(event->source@);
            let destination = before.local_addr;
            &&& known && packet.sequence > last + 1 ==> reports@.len() == 2 && tells_of_loss(
                reports@[0],
                event->source@,
                destination,
                packet.sequence - last - 1,
            )
            &&& known && last == u64::MAX && 0 < packet.sequence < u64::MAX ==> reports@.len() == 2
                && tells_of_loss(reports@[0], event->source@, destination, packet.sequence as int)
            &&& known && packet.sequence <= last + 1 && (last == u64::MAX ==> packet.sequence == 0
                || packet.sequence == u64::MAX) ==> reports@.len() == 1
            &&& !known ==> reports@.len() == 1
        },
{
    if let ReceiverAction::Poll(reports) = action {
        let views = report_views(reports@);
        assert(views.len() == reports@.len());
        assert(views[0] == reports@[0]@);
    }
}

/// A packet that was sent at one time and read at a later one is reported with the time in between
/// as its latency, whatever else the receiver knows, and whatever bytes follow it.
pub proof fn latency_is_the_time_on_the_way(
    sender: UdpSender,
    sent_at: u128,
    rest: Seq<u8>,
    before: ReceiverView,
    event: ReceiverEvent,
    after: ReceiverView,
    action: ReceiverAction,
)
    requires
        sender.phase is Waiting,
        event is Datagram,
        sender.next(SenderEvent::Tick { micros: sent_at }).1 matches SenderActionView::Send(bytes)
            && event->bytes@ == bytes + rest,
        sent_at <= event->micros <= u64::MAX,
        before.steps(event, after, action),
    ensures
        event.receivable(),
        action matches ReceiverAction::Poll(reports) && reports@.len() > 0 && tells_of_latency(
            reports@.last(),
            event->source@,
            before.local_addr,
            event->micros - sent_at,
        ),
        after.senders.contains_key(event->source@),
        after.senders[event->source@].last_seen == event->seen_at,
        after.senders[event->source@].last_sequence == sender.sequence,
{
    packet_carries_number_and_time(sender, sent_at, rest);
    if let Some(packet) = decoded(event->bytes@) {
        every_packet_brings_its_latency(before, event, after, action, packet);
    }
}

/// A receiver stops when it is asked to or when its socket fails, and only then. A round begins
/// with a look at the senders. A round in which nothing came, or nothing that can be read, brings
/// no report and changes nothing.
pub proof fn receiver_goes_on_until_it_is_stopped(
    before: ReceiverView,
    event: ReceiverEvent,
    after: ReceiverView,
    action: ReceiverAction,
)
    requires
        before.steps(event, after, action),
    ensures
        action is Stop <==> event is SocketError || (event matches ReceiverEvent::Poll {
            shutdown,
            ..
        } && shutdown),
        action is Receive <==> (event matches ReceiverEvent::Poll { shutdown, .. } && !shutdown),
        action is Stop ==> after == before,
        event is Quiet || (event matches ReceiverEvent::Datagram { bytes, .. } && decoded(bytes@)
            is None) ==> {
            &&& after == before
            &&& action matches ReceiverAction::Poll(reports)
            &&& reports@.len() == 0
        },
        event matches ReceiverEvent::Datagram { bytes, .. } && (decoded(bytes@) matches Some(
            packet,
        ) && packet.is_final) ==> {
            &&& action matches ReceiverAction::Poll(reports)
            &&& reports@.len() == 0
        },
{
    if let ReceiverAction::Poll(reports) = action {
        assert(report_views(reports@).len() == reports@.len());
    }
}

/// A look at the senders names each sender once or not at all: as dead where it was last heard more
/// than a minute ago, as having lost one packet where it was last heard longer ago than allowed but
/// no more than a minute, and not at all otherwise. The dead are forgotten; all others stay as they
/// are.
pub proof fn look_finds_exactly_the_silent(
    before: ReceiverView,
    now: u128,
    after: ReceiverView,
    action: ReceiverAction,
    address: Seq<char>,
)
    requires
        before.steps(ReceiverEvent::Poll { shutdown: false, now }, after, action),
    ensures
        action matches ReceiverAction::Receive(sweep) && {
            let known = before.senders.contains_key(address);
            let last_seen = before.senders[address].last_seen;
            let minute = 60_000_000_000int;
            &&& (exists|i: int| 0 <= i < sweep.dead@.len() && (#[trigger] sweep.dead@[i])@
                == address) <==> known && now > last_seen + minute
            &&& (exists|i: int|
                0 <= i < sweep.reports@.len() && (#[trigger] sweep.reports@[i]).source@ == address)
                <==> known && last_seen + before.timeout < now && now <= last_seen + minute
            &&& forall|i: int, j: int|
                0 <= i < j < sweep.dead@.len() ==> (#[trigger] sweep.dead@[i])@ != (
                #[trigger] sweep.dead@[j])@
            &&& forall|i: int, j: int|
                0 <= i < j < sweep.reports@.len() ==> (#[trigger] sweep.reports@[i]).source@ != (
                #[trigger] sweep.reports@[j]).source@
            &&& forall|i: int|
                0 <= i < sweep.reports@.len() ==> tells_of_loss(
                    #[trigger] sweep.reports@[i],
                    sweep.reports@[i].source@,
                    before.local_addr,
                    1,
                )
            &&& after.senders.contains_key(address) <==> known && now <= last_seen + minute
            &&& after.senders.contains_key(address) ==> after.senders[address]
                == before.senders[address]
        },
{
    if let ReceiverAction::Receive(sweep) = action {
        let dead = texts(sweep.dead@);
        let views = report_views(sweep.reports@);
        let named = sources(views);
        assert(dead.to_set().contains(address) <==> dead.contains(address));
        assert(named.to_set().contains(address) <==> named.contains(address));
        assert forall|i: int| 0 <= i < dead.len() implies #[trigger] sweep.dead@[i]@ == dead[i] by {
        }
        assert forall|i: int| 0 <= i < named.len() implies (#[trigger] sweep.reports@[i]).source@
            == named[i] && sweep.reports@[i]@ == views[i] by {
        }
        if dead.contains(address) {
            let i = choose|i: int| 0 <= i < dead.len() && dead[i] == address;
            assert(sweep.dead@[i]@ == address);
        }
        if named.contains(address) {
            let i = choose|i: int| 0 <= i < named.len() && named[i] == address;
            assert(sweep.reports@[i].source@ == address);
        }
        assert forall|i: int, j: int| 0 <= i < j < sweep.dead@.len() implies (
        #[trigger] sweep.dead@[i])@ != (#[trigger] sweep.dead@[j])@ by {
            assert(dead[i] != dead[j]);
        }
        assert forall|i: int, j: int| 0 <= i < j < sweep.reports@.len() implies (
        #[trigger] sweep.reports@[i]).source@ != (#[trigger] sweep.reports@[j]).source@ by {
            assert(named[i] != named[j]);
        }
        assert forall|i: int| 0 <= i < sweep.reports@.len() implies tells_of_loss(
            #[trigger] sweep.reports@[i],
            sweep.reports@[i].source@,
            before.local_addr,
            1,
        ) by {
            assert(views[i] == before.timeout_report(views[i].source));
        }
    }
}

} // verus!
