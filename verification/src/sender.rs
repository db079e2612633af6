//! The sending side: which packet goes out when.
use vstd::prelude::*;

use crate::clock::{timestamp_of, timestamp_us};
use crate::packet::{
    decoded, encoded, number_at, packet_is_written_byte_by_byte, packet_reads_back, Packet,
};
use crate::receiver::packets_lost;

verus! {

/// What a sender is waiting for.
#[derive(Clone, Copy, Debug, PartialEq, Eq, Structural)]
pub enum SenderPhase {
    /// For the next tick, a request to skip a number, or the end.
    Waiting,
    /// For the outcome of sending a packet.
    Sending,
    /// For the outcome of sending the last packet.
    Finishing,
    /// For nothing any more.
    Stopped,
}

/// The state of the sending side: the number of the next packet, and what it is waiting for.
#[derive(Clone, Copy, Debug, PartialEq, Eq, Structural)]
pub struct UdpSender {
    pub sequence: u64,
    pub phase: SenderPhase,
}

/// What befalls a sender. Clock readings are in microseconds since the Unix epoch.
#[derive(Clone, Copy, Debug, PartialEq, Eq, Structural)]
pub enum SenderEvent {
    /// It is time for the next packet.
    Tick { micros: u128 },
    /// A number is to be skipped.
    Skip,
    /// The sender was asked to stop.
    Shutdown { micros: u128 },
    /// The packet was sent.
    Sent,
    /// Nobody listens at the other end.
    Refused,
    /// The socket failed.
    Failed,
}

/// What a sender wants done.
#[derive(Debug)]
pub enum SenderAction {
    /// Wait for the next event.
    Wait,
    /// Send these bytes and say how it went.
    Send(Vec<u8>),
    /// Stop sending.
    Stop,
}

/// The content of a [`SenderAction`].
pub enum SenderActionView {
    Wait,
    Send(Seq<u8>),
    Stop,
}

impl View for SenderAction {
    type V = SenderActionView;

    open spec fn view(&self) -> SenderActionView {
        match self {
            SenderAction::Wait => SenderActionView::Wait,
            SenderAction::Send(bytes) => SenderActionView::Send(bytes@),
            SenderAction::Stop => SenderActionView::Stop,
        }
    }
}

impl SenderEvent {
    /// Whether the event says how a packet fared.
    pub open spec fn is_outcome(self) -> bool {
        self is Sent || self is Refused || self is Failed
    }
}

impl UdpSender {
    /// The packet that is made of the next number when the clock shows `micros`.
    pub open spec fn packet_at(self, micros: u128, is_final: bool) -> Packet {
        Packet { sequence: self.sequence, timestamp_us: timestamp_of(micros), is_final }
    }

    /// Whether `event` uses up the next number: the packet with it was sent, or it is skipped.
    pub open spec fn uses_number(self, event: SenderEvent) -> bool {
        (self.phase is Sending && event is Sent) || (self.phase is Waiting && event is Skip)
    }

    /// Whether `event` can come now.
    pub open spec fn awaits(self, event: SenderEvent) -> bool {
        match self.phase {
            SenderPhase::Waiting => !event.is_outcome(),
            SenderPhase::Sending => event.is_outcome(),
            SenderPhase::Finishing => event.is_outcome(),
            SenderPhase::Stopped => false,
        }
    }

    /// The sender after `event`, and what it wants done.
    pub open spec fn next(self, event: SenderEvent) -> (UdpSender, SenderActionView) {
        match self.phase {
            SenderPhase::Waiting => match event {
                SenderEvent::Tick { micros } => (
                    UdpSender { phase: SenderPhase::Sending, ..self },
                    SenderActionView::Send(encoded(self.packet_at(micros, false))),
                ),
                SenderEvent::Shutdown { micros } => (
                    UdpSender { phase: SenderPhase::Finishing, ..self },
                    SenderActionView::Send(encoded(self.packet_at(micros, true))),
                ),
                _ => (
                    UdpSender { sequence: (self.sequence + 1) as u64, ..self },
                    SenderActionView::Wait,
                ),
            },
            SenderPhase::Sending => match event {
                SenderEvent::Sent => (
                    UdpSender {
                        sequence: (self.sequence + 1) as u64,
                        phase: SenderPhase::Waiting,
                    },
                    SenderActionView::Wait,
                ),
                SenderEvent::Refused => (
                    UdpSender { phase: SenderPhase::Waiting, ..self },
                    SenderActionView::Wait,
                ),
                _ => (
                    UdpSender { phase: SenderPhase::Stopped, ..self },
                    SenderActionView::Stop,
                ),
            },
            _ => (UdpSender { phase: SenderPhase::Stopped, ..self }, SenderActionView::Stop),
        }
    }

    /// A sender that has sent nothing yet.
    pub fn new() -> (sender: UdpSender)
        ensures
            sender == (UdpSender { sequence: 0, phase: SenderPhase::Waiting }),
    {
        UdpSender { sequence: 0, phase: SenderPhase::Waiting }
    }

    /// Takes in an event and says what is to be done about it.
    pub fn step(&mut self, event: SenderEvent) -> (action: SenderAction)
        requires
            old(self).awaits(event),
            old(self).uses_number(event) ==> old(self).sequence < u64::MAX,
        ensures
            *final(self) == old(self).next(event).0,
            action@ == old(self).next(event).1,
    {
        match self.phase {
            SenderPhase::Waiting => match event {
                SenderEvent::Tick { micros } => {
                    self.phase = SenderPhase::Sending;
                    SenderAction::Send(self.make_packet(micros, false).to_bytes())
                },
                SenderEvent::Shutdown { micros } => {
                    self.phase = SenderPhase::Finishing;
                    SenderAction::Send(self.make_packet(micros, true).to_bytes())
                },
                _ => {
                    self.sequence = self.sequence + 1;
                    SenderAction::Wait
                },
            },
            SenderPhase::Sending => match event {
                SenderEvent::Sent => {
                    self.sequence = self.sequence + 1;
                    self.phase = SenderPhase::Waiting;
                    SenderAction::Wait
                },
                SenderEvent::Refused => {
                    self.phase = SenderPhase::Waiting;
                    SenderAction::Wait
                },
                _ => {
                    self.phase = SenderPhase::Stopped;
                    SenderAction::Stop
                },
            },
            _ => {
                self.phase = SenderPhase::Stopped;
                SenderAction::Stop
            },
        }
    }

    /// Makes a packet of the next number.
    fn make_packet(&self, micros: u128, is_final: bool) -> (packet: Packet)
        ensures
            packet == self.packet_at(micros, is_final),
            packet.sequence == self.sequence,
            packet.is_final == is_final,
            micros <= u64::MAX ==> packet.timestamp_us == micros,
    {
        Packet { sequence: self.sequence, timestamp_us: timestamp_us(micros), is_final }
    }
}

/// Whether `events` lead through `states`, one after the other, and each can come when it does.
pub open spec fn is_sender_run(states: Seq<UdpSender>, events: Seq<SenderEvent>) -> bool {
    &&& states.len() == events.len() + 1
    &&& forall|i: int|
        0 <= i < events.len() ==> {
            &&& states[i].awaits(#[trigger] events[i])
            &&& states[i].uses_number(events[i]) ==> states[i].sequence < u64::MAX
            &&& states[i + 1] == states[i].next(events[i]).0
        }
}

/// How many of the events use up a number.
pub open spec fn numbers_used(states: Seq<UdpSender>, events: Seq<SenderEvent>) -> nat
    decreases events.len(),
{
    if events.len() == 0 {
        0
    } else {
        let n = (events.len() - 1) as int;
        numbers_used(states.take(n + 1), events.take(n)) + if states[n].uses_number(events[n]) {
            1nat
        } else {
            0nat
        }
    }
}

/// Numbers are used one by one: over any run the next number rises by the packets that were sent
/// and the numbers that were skipped, and by nothing else. A refused packet leaves its number to
/// the next one.
pub proof fn numbers_are_used_one_by_one(states: Seq<UdpSender>, events: Seq<SenderEvent>)
    requires
        is_sender_run(states, events),
    ensures
        states.last().sequence == states[0].sequence + numbers_used(states, events),
    decreases events.len(),
{
    if events.len() > 0 {
        let n = (events.len() - 1) as int;
        let earlier_states = states.take(n + 1);
        let earlier_events = events.take(n);
        assert forall|i: int| 0 <= i < n implies {
            &&& earlier_states[i].awaits(#[trigger] earlier_events[i])
            &&& earlier_states[i].uses_number(earlier_events[i]) ==> earlier_states[i].sequence
                < u64::MAX
            &&& earlier_states[i + 1] == earlier_states[i].next(earlier_events[i]).0
        } by {
            assert(earlier_events[i] == events[i]);
        }
        numbers_are_used_one_by_one(earlier_states, earlier_events);
        assert(states[n].awaits(events[n]));
    }
}

/// A refused packet is made up for: the next tick sends a packet with the same number.
pub proof fn refused_number_is_sent_again(sender: UdpSender, first: u128, second: u128)
    requires
        sender.phase is Waiting,
    ensures
        ({
            let refused = sender.next(SenderEvent::Tick { micros: first }).0.next(
                SenderEvent::Refused,
            ).0;
            &&& refused == sender
            &&& refused.next(SenderEvent::Tick { micros: second }).1 == SenderActionView::Send(
                encoded(sender.packet_at(second, false)),
            )
        }),
{
}

/// A sender that is asked to stop sends one last packet, marked as such and with the next number,
/// and stops however that packet fares.
pub proof fn shutdown_sends_one_last_packet(sender: UdpSender, micros: u128, outcome: SenderEvent)
    requires
        sender.phase is Waiting,
        outcome.is_outcome(),
    ensures
        ({
            let (finishing, action) = sender.next(SenderEvent::Shutdown { micros });
            &&& action matches SenderActionView::Send(bytes)
            &&& decoded(bytes) == Some(sender.packet_at(micros, true))
            &&& finishing.awaits(outcome)
            &&& finishing.next(outcome).1 is Stop
            &&& finishing.next(outcome).0.phase is Stopped
            &&& finishing.next(outcome).0.sequence == sender.sequence
        }),
{
    let packet = sender.packet_at(micros, true);
    packet_reads_back(packet, Seq::empty());
    assert(encoded(packet) + Seq::<u8>::empty() =~= encoded(packet));
}

/// A stopped sender takes in nothing more.
pub proof fn stopped_is_the_end(sender: UdpSender, event: SenderEvent)
    requires
        sender.phase is Stopped,
    ensures
        !sender.awaits(event),
{
}

/// What a sender sends on a tick is what a receiver reads: the next number, the time, and no mark.
pub proof fn tick_is_read_by_a_receiver(sender: UdpSender, micros: u128, rest: Seq<u8>)
    requires
        sender.phase is Waiting,
    ensures
        sender.next(SenderEvent::Tick { micros }).1 matches SenderActionView::Send(bytes)
            && decoded(bytes + rest) == Some(sender.packet_at(micros, false)),
{
    packet_reads_back(sender.packet_at(micros, false), rest);
}

/// A receiver that gets a packet with the number of the first state and then one with the number
/// of the last counts as lost every number used in between, whether its packet went missing or the
/// number was skipped: skipping a number looks like losing a packet.
pub proof fn used_numbers_look_lost(states: Seq<UdpSender>, events: Seq<SenderEvent>)
    requires
        is_sender_run(states, events),
        numbers_used(states, events) > 0,
    ensures
        packets_lost(states[0].sequence, states.last().sequence) == numbers_used(states, events)
            - 1,
{
    numbers_are_used_one_by_one(states, events);
}

/// The packet that goes out on a tick carries the next number, the clock as it was read, and no
/// mark; the one that goes out on the way out is marked. A clock reading that needs more than 64
/// bits is cut down to its lowest 64.
pub proof fn packet_carries_number_and_time(sender: UdpSender, micros: u128, rest: Seq<u8>)
    requires
        sender.phase is Waiting,
    ensures
        sender.next(SenderEvent::Tick { micros }).1 matches SenderActionView::Send(bytes) && {
            &&& decoded(bytes + rest) matches Some(packet)
            &&& packet.sequence == sender.sequence
            &&& packet.timestamp_us == micros % 0x1_0000_0000_0000_0000
            &&& micros <= u64::MAX ==> packet.timestamp_us == micros
            &&& !packet.is_final
        },
        sender.next(SenderEvent::Shutdown { micros }).1 matches SenderActionView::Send(bytes) && {
            &&& decoded(bytes + rest) matches Some(packet)
            &&& packet.sequence == sender.sequence
            &&& packet.timestamp_us == micros % 0x1_0000_0000_0000_0000
            &&& micros <= u64::MAX ==> packet.timestamp_us == micros
            &&& packet.is_final
        },
{
    packet_reads_back(sender.packet_at(micros, false), rest);
    packet_reads_back(sender.packet_at(micros, true), rest);
}

/// Nothing goes out but on a tick or on the way out, and what goes out is one packet and nothing
/// behind it.
pub proof fn nothing_else_is_sent(sender: UdpSender, event: SenderEvent)
    requires
        sender.awaits(event),
    ensures
        sender.next(event).1 is Send <==> event is Tick || event is Shutdown,
        sender.next(event).1 matches SenderActionView::Send(bytes) ==> bytes.len() == 17,
{
    match event {
        SenderEvent::Tick { micros } => {
            packet_reads_back(sender.packet_at(micros, false), Seq::empty());
        },
        SenderEvent::Shutdown { micros } => {
            packet_reads_back(sender.packet_at(micros, true), Seq::empty());
        },
        _ => {},
    }
}

/// A sender that waits can be ticked, made to skip a number, or stopped; one that is sending can
/// be told how the packet fared; one that has stopped can be told nothing. Only a packet that was
/// sent and a number that is skipped use a number up.
pub proof fn events_come_in_their_time(sender: UdpSender, event: SenderEvent)
    ensures
        sender.phase is Waiting ==> (sender.awaits(event) <==> event is Tick || event is Skip
            || event is Shutdown),
        sender.phase is Sending || sender.phase is Finishing ==> (sender.awaits(event) <==> event
            is Sent || event is Refused || event is Failed),
        sender.phase is Stopped ==> !sender.awaits(event),
        sender.uses_number(event) <==> (sender.phase is Sending && event is Sent) || (
        sender.phase is Waiting && event is Skip),
{
}

/// A sender goes on after a packet that was sent or refused and after a skipped number, and stops
/// after a failure or after its last packet. It waits in between.
pub proof fn sender_goes_on_until_it_fails_or_leaves(sender: UdpSender, event: SenderEvent)
    requires
        sender.awaits(event),
        sender.uses_number(event) ==> sender.sequence < u64::MAX,
    ensures
        event is Tick ==> sender.next(event).0.phase is Sending,
        event is Shutdown ==> sender.next(event).0.phase is Finishing,
        event is Skip ==> sender.next(event).0.phase is Waiting && sender.next(event).1 is Wait,
        sender.phase is Sending && (event is Sent || event is Refused) ==> sender.next(
            event,
        ).0.phase is Waiting && sender.next(event).1 is Wait,
        sender.phase is Sending && event is Failed ==> sender.next(event).0.phase is Stopped
            && sender.next(event).1 is Stop,
        sender.phase is Finishing ==> sender.next(event).0.phase is Stopped && sender.next(event).1
            is Stop,
        sender.next(event).0.sequence == sender.sequence + if event is Skip || (sender.phase
            is Sending && event is Sent) {
            1int
        } else {
            0int
        },
{
}

/// How many of the events say that a packet was sent or that a number is to be skipped.
pub open spec fn sent_or_skipped(events: Seq<SenderEvent>) -> nat
    decreases events.len(),
{
    if events.len() == 0 {
        0
    } else {
        sent_or_skipped(events.drop_last()) + if events.last() is Sent || events.last() is Skip {
            1nat
        } else {
            0nat
        }
    }
}

proof fn lemma_number_while_going_on(states: Seq<UdpSender>, events: Seq<SenderEvent>, k: int)
    requires
        is_sender_run(states, events),
        states[0].phase is Waiting,
        0 <= k < states.len(),
        states[k].phase is Waiting || states[k].phase is Sending,
    ensures
        states[k].sequence == states[0].sequence + sent_or_skipped(events.take(k)),
    decreases k,
{
    if k > 0 {
        assert(states[k - 1].awaits(events[k - 1]));
        assert(states[k] == states[k - 1].next(events[k - 1]).0);
        lemma_number_while_going_on(states, events, k - 1);
        assert(events.take(k).drop_last() =~= events.take(k - 1));
    }
}

/// A packet's number tells what came before it: the number that the sender began with, and one
/// more for each packet that was sent and each number that was skipped. Ticks that were refused
/// leave no gap.
pub proof fn number_counts_what_came_before(
    states: Seq<UdpSender>,
    events: Seq<SenderEvent>,
    k: int,
)
    requires
        is_sender_run(states, events),
        states[0].phase is Waiting,
        0 <= k < events.len(),
        events[k] is Tick || events[k] is Shutdown,
    ensures
        states[k].next(events[k]).1 matches SenderActionView::Send(bytes) && {
            &&& decoded(bytes) matches Some(packet)
            &&& packet.sequence == states[0].sequence + sent_or_skipped(events.take(k))
        },
{
    assert(states[k].awaits(events[k]));
    lemma_number_while_going_on(states, events, k);
    let micros = match events[k] {
        SenderEvent::Tick { micros } => micros,
        SenderEvent::Shutdown { micros } => micros,
        _ => 0,
    };
    packet_carries_number_and_time(states[k], micros, Seq::empty());
    if let SenderActionView::Send(bytes) = states[k].next(events[k]).1 {
        assert(bytes + Seq::<u8>::empty() =~= bytes);
    }
}

/// A sender that waits hands over the bytes of its packet as they are to go out: they begin with
/// the number, least significant byte first, then comes the time in the same form, and at the end
/// whether the sender is leaving.
pub proof fn bytes_go_out_as_they_are(
    sender: UdpSender,
    event: SenderEvent,
    micros: u128,
    action: SenderAction,
)
    requires
        sender.phase is Waiting,
        event == (SenderEvent::Tick { micros }) || event == (SenderEvent::Shutdown { micros }),
        micros <= u64::MAX,
        action@ == sender.next(event).1,
    ensures
        action matches SenderAction::Send(bytes) && {
            &&& bytes@.len() == 17
            &&& number_at(bytes@, 0) == sender.sequence
            &&& number_at(bytes@, 8) == micros
            &&& bytes@[16] == if event is Shutdown {
                1u8
            } else {
                0u8
            }
        },
{
    packet_is_written_byte_by_byte(sender.packet_at(micros, event is Shutdown));
}

} // verus!
