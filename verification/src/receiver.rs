//! The receiving side: which senders are known, and what their packets tell.
use vstd::hash_map::StringHashMap;
use vstd::prelude::*;

use crate::clock::{timestamp_of, timestamp_us};
use crate::measurement::{report_views, Kind, Report, ReportView};
use crate::packet::{decoded, Packet};

verus! {

/// How long a sender may be silent, in nanoseconds, before each look at it counts as a lost packet.
pub const TIMEOUT_NANOS: u128 = 5_000_000_000;

/// How long a sender may be silent, in nanoseconds, before it is forgotten.
pub const DEAD_AFTER_NANOS: u128 = 60_000_000_000;

/// How long to wait for a datagram, in milliseconds, before the senders are looked at again.
pub const RECEIVE_WAIT_MILLIS: u64 = 1000;

/// What is remembered of a sender: when its last packet came, in nanoseconds since the Unix epoch,
/// and that packet's number.
#[derive(Clone, Copy, Debug, PartialEq, Eq, Structural)]
pub struct SenderState {
    pub last_seen: u128,
    pub last_sequence: u64,
}

/// How a sender's silence is judged.
#[derive(Clone, Copy, Debug, PartialEq, Eq, Structural)]
pub enum Standing {
    Active,
    TimedOut,
    Dead,
}

/// How a sender stands at `now` that was last heard at `last_seen`. A clock that went backwards
/// speaks against nobody.
pub open spec fn standing_at(now: u128, last_seen: u128, timeout: u128) -> Standing {
    if now < last_seen {
        Standing::Active
    } else if now - last_seen > DEAD_AFTER_NANOS {
        Standing::Dead
    } else if now - last_seen > timeout {
        Standing::TimedOut
    } else {
        Standing::Active
    }
}

/// Judges a sender's silence.
pub fn standing(now: u128, last_seen: u128, timeout: u128) -> (result: Standing)
    ensures
        result == standing_at(now, last_seen, timeout),
{
    if now < last_seen {
        Standing::Active
    } else if now - last_seen > DEAD_AFTER_NANOS {
        Standing::Dead
    } else if now - last_seen > timeout {
        Standing::TimedOut
    } else {
        Standing::Active
    }
}

/// The number that follows `sequence`; the numbers wrap round at 64 bits.
pub open spec fn following(sequence: u64) -> u64 {
    if sequence == u64::MAX {
        0
    } else {
        (sequence + 1) as u64
    }
}

/// How many packets went missing when `sequence` comes after `last`: the numbers between the two.
/// A repeated or an older number says that none did.
pub open spec fn packets_lost(last: u64, sequence: u64) -> u64 {
    if sequence != last && sequence > following(last) {
        (sequence - following(last)) as u64
    } else {
        0
    }
}

/// Counts the packets that went missing between two that came.
pub fn count_lost(last: u64, sequence: u64) -> (lost: u64)
    ensures
        lost == packets_lost(last, sequence),
{
    let expected: u64 = last.wrapping_add(1);
    if last != sequence && sequence > expected {
        sequence.wrapping_sub(expected)
    } else {
        0
    }
}

/// What a look at the senders brings: who was forgotten, and what is to be reported.
#[derive(Debug)]
pub struct Sweep {
    pub dead: Vec<String>,
    pub reports: Vec<Report>,
}

/// The texts of a list of strings.
pub open spec fn texts(strings: Seq<String>) -> Seq<Seq<char>> {
    strings.map_values(|s: String| s@)
}

/// The senders that a list of reports is about.
pub open spec fn sources(reports: Seq<ReportView>) -> Seq<Seq<char>> {
    reports.map_values(|report: ReportView| report.source)
}

/// Whether `list` names each of `members` once, and nobody else. The order is left open.
pub open spec fn names_each_once(list: Seq<Seq<char>>, members: Set<Seq<char>>) -> bool {
    &&& list.no_duplicates()
    &&& list.to_set() == members
}

/// What befalls a receiver.
#[derive(Debug)]
pub enum ReceiverEvent {
    /// The round begins at `now`, in nanoseconds since the Unix epoch; `shutdown` says whether the
    /// receiver was asked to stop.
    Poll { shutdown: bool, now: u128 },
    /// A datagram came from `source`. The clock showed `micros` microseconds since the Unix epoch
    /// when it was read, and `seen_at` nanoseconds when its sender was noted down.
    Datagram { source: String, bytes: Vec<u8>, micros: u128, seen_at: u128 },
    /// No datagram came in time.
    Quiet,
    /// The socket failed.
    SocketError,
}

/// What a receiver wants done.
#[derive(Debug)]
pub enum ReceiverAction {
    /// Send the reports on, then wait for a datagram.
    Receive(Sweep),
    /// Send the reports on, then begin the next round.
    Poll(Vec<Report>),
    /// Stop receiving.
    Stop,
}

impl ReceiverEvent {
    /// Whether a packet that the event holds, if any, was sent no later than it was received.
    pub open spec fn receivable(self) -> bool {
        self matches ReceiverEvent::Datagram { bytes, micros, .. } ==> (decoded(
            bytes@,
        ) matches Some(packet) ==> packet.timestamp_us <= timestamp_of(micros))
    }
}

/// What a receiver knows.
#[verifier::ext_equal]
pub struct ReceiverView {
    pub local_addr: Seq<char>,
    pub timeout: u128,
    pub senders: Map<Seq<char>, SenderState>,
}

impl ReceiverView {
    /// How the known sender at `address` stands at `now`.
    pub open spec fn standing_of(self, address: Seq<char>, now: u128) -> Standing {
        standing_at(now, self.senders[address].last_seen, self.timeout)
    }

    /// The known senders that stand so at `now`.
    pub open spec fn standing_so(self, standing: Standing, now: u128) -> Set<Seq<char>> {
        Set::new(
            |address: Seq<char>|
                self.senders.contains_key(address) && self.standing_of(address, now) == standing,
        )
    }

    /// The report that a silent sender brings: one packet lost.
    pub open spec fn timeout_report(self, address: Seq<char>) -> ReportView {
        ReportView {
            kind: Kind::PacketLoss,
            source: address,
            destination: self.local_addr,
            value: 1,
        }
    }

    /// The receiver after a look at the senders: the dead are forgotten.
    pub open spec fn after_sweep(self, now: u128) -> ReceiverView {
        ReceiverView {
            senders: self.senders.remove_keys(self.standing_so(Standing::Dead, now)),
            ..self
        }
    }

    /// The number of the last packet from `source`; for a new sender that of the packet at hand.
    pub open spec fn last_sequence(self, source: Seq<char>, packet: Packet) -> u64 {
        if self.senders.contains_key(source) {
            self.senders[source].last_sequence
        } else {
            packet.sequence
        }
    }

    /// The receiver after a packet: it remembers the sender, or forgets it if the packet is its
    /// last.
    pub open spec fn after_packet(
        self,
        source: Seq<char>,
        packet: Packet,
        seen_at: u128,
    ) -> ReceiverView {
        ReceiverView {
            senders: if packet.is_final {
                self.senders.remove(source)
            } else {
                self.senders.insert(
                    source,
                    SenderState { last_seen: seen_at, last_sequence: packet.sequence },
                )
            },
            ..self
        }
    }

    /// What a packet brings: the packets lost before it, if any, and then its latency. A sender's
    /// last packet brings nothing.
    pub open spec fn packet_reports(self, source: Seq<char>, packet: Packet, now_us: u64) -> Seq<
        ReportView,
    > {
        let lost = packets_lost(self.last_sequence(source, packet), packet.sequence);
        let latency = ReportView {
            kind: Kind::Latency,
            source,
            destination: self.local_addr,
            value: (now_us - packet.timestamp_us) as u64,
        };
        if packet.is_final {
            Seq::empty()
        } else if lost > 0 {
            seq![
                ReportView {
                    kind: Kind::PacketLoss,
                    source,
                    destination: self.local_addr,
                    value: lost,
                },
                latency,
            ]
        } else {
            seq![latency]
        }
    }

    /// Whether `sweep` is what a look at the senders at `now` brings.
    pub open spec fn brings(self, sweep: Sweep, now: u128) -> bool {
        let reports = report_views(sweep.reports@);
        &&& names_each_once(texts(sweep.dead@), self.standing_so(Standing::Dead, now))
        &&& names_each_once(sources(reports), self.standing_so(Standing::TimedOut, now))
        &&& forall|i: int|
            0 <= i < reports.len() ==> #[trigger] reports[i] == self.timeout_report(
                reports[i].source,
            )
    }
}

impl ReceiverView {
    /// Whether `event` leads from this receiver to `after` and calls for `action`.
    pub open spec fn steps(
        self,
        event: ReceiverEvent,
        after: ReceiverView,
        action: ReceiverAction,
    ) -> bool {
        match event {
            ReceiverEvent::Poll { shutdown, now } => if shutdown {
                after == self && action is Stop
            } else {
                &&& after == self.after_sweep(now)
                &&& action matches ReceiverAction::Receive(sweep)
                &&& self.brings(sweep, now)
            },
            ReceiverEvent::Datagram { source, bytes, micros, seen_at } => match decoded(bytes@) {
                Some(packet) => {
                    &&& after == self.after_packet(source@, packet, seen_at)
                    &&& action matches ReceiverAction::Poll(reports)
                    &&& report_views(reports@) == self.packet_reports(
                        source@,
                        packet,
                        timestamp_of(micros),
                    )
                },
                None => {
                    &&& after == self
                    &&& action matches ReceiverAction::Poll(reports)
                    &&& reports@.len() == 0
                },
            },
            ReceiverEvent::Quiet => {
                &&& after == self
                &&& action matches ReceiverAction::Poll(reports)
                &&& reports@.len() == 0
            },
            ReceiverEvent::SocketError => after == self && action is Stop,
        }
    }
}

/// The state of the receiving side.
pub struct UdpReceiver {
    local_addr: String,
    timeout: u128,
    senders: StringHashMap<SenderState>,
    known: Vec<String>,
}

impl View for UdpReceiver {
    type V = ReceiverView;

    closed spec fn view(&self) -> ReceiverView {
        ReceiverView {
            local_addr: self.local_addr@,
            timeout: self.timeout,
            senders: self.senders@,
        }
    }
}

proof fn lemma_listed_next(list: Seq<Seq<char>>, i: int)
    requires
        0 <= i < list.len(),
        list.no_duplicates(),
    ensures
        !list.take(i).contains(list[i]),
        forall|a: Seq<char>| #[trigger]
            list.take(i + 1).contains(a) <==> list.take(i).contains(a) || a == list[i],
{
    let before = list.take(i);
    let after = list.take(i + 1);
    assert forall|a: Seq<char>| #[trigger] after.contains(a) implies before.contains(a) || a
        == list[i] by {
        let j = choose|j: int| 0 <= j < after.len() && after[j] == a;
        if j < i {
            assert(before[j] == a);
        }
    }
    assert forall|a: Seq<char>|
        before.contains(a) || a == list[i] implies #[trigger] after.contains(a) by {
        if before.contains(a) {
            let j = choose|j: int| 0 <= j < before.len() && before[j] == a;
            assert(after[j] == a);
        } else {
            assert(after[i] == a);
        }
    }
}

proof fn lemma_push_name(list: Seq<Seq<char>>, name: Seq<char>)
    requires
        list.no_duplicates(),
        !list.contains(name),
    ensures
        list.push(name).no_duplicates(),
        forall|a: Seq<char>| #[trigger]
            list.push(name).contains(a) <==> list.contains(a) || a == name,
{
    assert forall|a: Seq<char>| list.contains(a) || a == name implies #[trigger] list.push(
        name,
    ).contains(a) by {
        if list.contains(a) {
            let j = choose|j: int| 0 <= j < list.len() && list[j] == a;
            assert(list.push(name)[j] == a);
        } else {
            assert(list.push(name)[list.len() as int] == a);
        }
    }
    assert forall|i: int, j: int|
        0 <= i < list.len() + 1 && 0 <= j < list.len() + 1 && i != j implies list.push(name)[i]
        != list.push(name)[j] by {
        if i < list.len() && j < list.len() {
            assert(list[i] != list[j]);
        }
    }
}

proof fn lemma_push_text(list: Seq<String>, name: String)
    requires
        texts(list).no_duplicates(),
        !texts(list).contains(name@),
    ensures
        texts(list.push(name)).no_duplicates(),
        forall|a: Seq<char>| #[trigger]
            texts(list.push(name)).contains(a) <==> texts(list).contains(a) || a == name@,
{
    lemma_push_name(texts(list), name@);
    assert(texts(list.push(name)) =~= texts(list).push(name@));
}

proof fn lemma_remove_name(list: Seq<Seq<char>>, i: int)
    requires
        0 <= i < list.len(),
        list.no_duplicates(),
    ensures
        list.remove(i).no_duplicates(),
        forall|a: Seq<char>| #[trigger]
            list.remove(i).contains(a) <==> list.contains(a) && a != list[i],
{
    let rest = list.remove(i);
    assert forall|a: Seq<char>| #[trigger] rest.contains(a) implies list.contains(a) && a
        != list[i] by {
        let j = choose|j: int| 0 <= j < rest.len() && rest[j] == a;
        assert(list[if j < i { j } else { j + 1 }] == a);
    }
    assert forall|a: Seq<char>| list.contains(a) && a != list[i] implies #[trigger] rest.contains(
        a,
    ) by {
        let j = choose|j: int| 0 <= j < list.len() && list[j] == a;
        assert(rest[if j < i { j } else { j - 1 }] == a);
    }
}

/// Where `name` stands in `list`, if it does.
fn position(list: &Vec<String>, name: &String) -> (found: Option<usize>)
    ensures
        match found {
            Some(i) => i < list.len() && list[i as int]@ == name@,
            None => !texts(list@).contains(name@),
        },
{
    let mut i: usize = 0;
    while i < list.len()
        invariant
            i <= list.len(),
            forall|j: int| 0 <= j < i ==> (#[trigger] list[j])@ != name@,
        decreases list.len() - i,
    {
        if list[i].eq(name) {
            return Some(i);
        }
        i += 1;
    }
    assert forall|j: int| 0 <= j < list.len() implies #[trigger] texts(list@)[j] != name@ by {
        assert(list[j]@ != name@);
    }
    None
}

impl UdpReceiver {
    /// The list of addresses names exactly the senders that are remembered, each once.
    pub closed spec fn well_formed(&self) -> bool {
        names_each_once(texts(self.known@), self.senders@.dom())
    }

    /// A receiver at `local_addr` that knows nobody yet.
    pub fn new(local_addr: String, timeout: u128) -> (receiver: UdpReceiver)
        ensures
            receiver.well_formed(),
            receiver@ == (ReceiverView {
                local_addr: local_addr@,
                timeout,
                senders: Map::empty(),
            }),
    {
        let receiver = UdpReceiver {
            local_addr,
            timeout,
            senders: StringHashMap::new(),
            known: Vec::new(),
        };
        assert(texts(receiver.known@).to_set() =~= receiver.senders@.dom());
        receiver
    }

    /// Looks at all senders: forgets those that are dead, and reports those that are silent for
    /// too long.
    pub fn check_timeouts(&mut self, now: u128) -> (sweep: Sweep)
        requires
            old(self).well_formed(),
        ensures
            final(self).well_formed(),
            final(self)@ == old(self)@.after_sweep(now),
            old(self)@.brings(sweep, now),
    {
        let mut listed: Vec<String> = Vec::new();
        std::mem::swap(&mut listed, &mut self.known);
        let mut dead: Vec<String> = Vec::new();
        let mut reports: Vec<Report> = Vec::new();
        let ghost before = self@;
        let ghost names = texts(listed@);
        let ghost strings = listed@;
        assert(texts(self.known@) =~= Seq::empty());
        assert(texts(dead@) =~= Seq::empty());
        assert(sources(report_views(reports@)) =~= Seq::empty());
        for address in it: listed
            invariant
                it.seq() == strings,
                names == texts(strings),
                names_each_once(names, before.senders.dom()),
                self.local_addr@ == before.local_addr,
                self.timeout == before.timeout,
                texts(self.known@).no_duplicates(),
                texts(dead@).no_duplicates(),
                sources(report_views(reports@)).no_duplicates(),
                forall|a: Seq<char>| #[trigger]
                    texts(self.known@).contains(a) <==> names.take(it.index() as int).contains(a)
                        && before.standing_of(a, now) != Standing::Dead,
                forall|a: Seq<char>| #[trigger]
                    texts(dead@).contains(a) <==> names.take(it.index() as int).contains(a)
                        && before.standing_of(a, now) == Standing::Dead,
                forall|a: Seq<char>| #[trigger]
                    sources(report_views(reports@)).contains(a) <==> names.take(
                        it.index() as int,
                    ).contains(a) && before.standing_of(a, now) == Standing::TimedOut,
                forall|i: int|
                    0 <= i < reports@.len() ==> #[trigger] report_views(reports@)[i]
                        == before.timeout_report(report_views(reports@)[i].source),
                self.senders@ == before.senders.remove_keys(texts(dead@).to_set()),
        {
            let ghost i = it.index() as int;
            proof {
                lemma_listed_next(names, i);
                assert(names[i] == address@);
                assert(names.to_set().contains(address@));
                assert(!texts(dead@).contains(address@));
            }
            let state: SenderState = *self.senders.get(address.as_str()).unwrap();
            match standing(now, state.last_seen, self.timeout) {
                Standing::Dead => {
                    proof {
                        lemma_push_text(dead@, address);
                        assert(texts(dead@.push(address)).to_set() =~= texts(dead@).to_set().insert(
                            address@,
                        ));
                    }
                    self.senders.remove(address.as_str());
                    dead.push(address);
                },
                Standing::TimedOut => {
                    let report = Report {
                        kind: Kind::PacketLoss,
                        source: address.clone(),
                        destination: self.local_addr.clone(),
                        value: 1,
                    };
                    proof {
                        let views = report_views(reports@);
                        lemma_push_name(sources(views), address@);
                        assert(report_views(reports@.push(report)) =~= views.push(report@));
                        assert(sources(views.push(report@)) =~= sources(views).push(address@));
                        lemma_push_text(self.known@, address);
                    }
                    reports.push(report);
                    self.known.push(address);
                },
                Standing::Active => {
                    proof {
                        lemma_push_text(self.known@, address);
                    }
                    self.known.push(address);
                },
            }
        }
        proof {
            assert(names.take(names.len() as int) =~= names);
            assert forall|a: Seq<char>| #[trigger]
                names.contains(a) <==> before.senders.dom().contains(a) by {
                assert(names.to_set().contains(a) <==> names.contains(a));
            }
            assert(texts(dead@).to_set() =~= before.standing_so(Standing::Dead, now));
            assert(sources(report_views(reports@)).to_set() =~= before.standing_so(
                Standing::TimedOut,
                now,
            ));
            assert(texts(self.known@).to_set() =~= self.senders@.dom());
        }
        Sweep { dead, reports }
    }

    /// Forgets the sender at `address`, if it is known.
    fn forget(&mut self, address: &String)
        requires
            old(self).well_formed(),
        ensures
            final(self).well_formed(),
            final(self)@ == (ReceiverView {
                senders: old(self)@.senders.remove(address@),
                ..old(self)@
            }),
    {
        let ghost names = texts(self.known@);
        assert forall|a: Seq<char>| #[trigger]
            names.contains(a) <==> self.senders@.contains_key(a) by {
            assert(names.to_set().contains(a) <==> self.senders@.dom().contains(a));
        }
        if let Some(i) = position(&self.known, address) {
            self.known.remove(i);
            self.senders.remove(address.as_str());
            proof {
                assert(texts(self.known@) =~= names.remove(i as int));
                lemma_remove_name(names, i as int);
                assert(texts(self.known@).to_set() =~= self.senders@.dom());
            }
        } else {
            assert(self@.senders.remove(address@) =~= self@.senders);
        }
    }

    /// Takes in a packet from `source` that came when the clock showed `now_us` microseconds:
    /// remembers the sender, and reports what the packet tells.
    pub fn process_packet(
        &mut self,
        source: String,
        packet: Packet,
        now_us: u64,
        seen_at: u128,
    ) -> (reports: Vec<Report>)
        requires
            old(self).well_formed(),
            packet.timestamp_us <= now_us,
        ensures
            final(self).well_formed(),
            final(self)@ == old(self)@.after_packet(source@, packet, seen_at),
            report_views(reports@) == old(self)@.packet_reports(source@, packet, now_us),
            !packet.is_final ==> {
                &&& final(self)@.senders.contains_key(source@)
                &&& final(self)@.senders[source@].last_seen == seen_at
                &&& final(self)@.senders[source@].last_sequence == packet.sequence
                &&& reports@.len() > 0
                &&& reports@.last().kind == Kind::Latency
                &&& reports@.last().value == now_us - packet.timestamp_us
            },
    {
        let latency: u64 = now_us - packet.timestamp_us;
        let mut reports: Vec<Report> = Vec::new();
        if packet.is_final {
            self.forget(&source);
            assert(report_views(reports@) =~= Seq::empty());
            return reports;
        }
        let last_sequence: u64 = match self.senders.get(source.as_str()) {
            Some(state) => state.last_sequence,
            None => {
                self.known.push(source.clone());
                packet.sequence
            },
        };
        let lost: u64 = count_lost(last_sequence, packet.sequence);
        if lost > 0 {
            reports.push(
                Report {
                    kind: Kind::PacketLoss,
                    source: source.clone(),
                    destination: self.local_addr.clone(),
                    value: lost,
                },
            );
        }
        reports.push(
            Report {
                kind: Kind::Latency,
                source: source.clone(),
                destination: self.local_addr.clone(),
                value: latency,
            },
        );
        let ghost views = old(self)@.packet_reports(source@, packet, now_us);
        assert(report_views(reports@) =~= views);
        self.senders.insert(
            source,
            SenderState { last_seen: seen_at, last_sequence: packet.sequence },
        );
        proof {
            let names = texts(old(self).known@);
            assert forall|a: Seq<char>| #[trigger] names.contains(a) <==> old(
                self,
            ).senders@.contains_key(a) by {
                assert(names.to_set().contains(a) <==> old(self).senders@.dom().contains(a));
            }
            if !old(self).senders@.contains_key(source@) {
                lemma_push_text(old(self).known@, self.known@.last());
            }
            assert(texts(self.known@).to_set() =~= self.senders@.dom());
        }
        reports
    }

    /// Takes in an event and says what is to be done about it.
    pub fn step(&mut self, event: ReceiverEvent) -> (action: ReceiverAction)
        requires
            old(self).well_formed(),
            event.receivable(),
        ensures
            final(self).well_formed(),
            old(self)@.steps(event, final(self)@, action),
    {
        match event {
            ReceiverEvent::Poll { shutdown, now } => {
                if shutdown {
                    ReceiverAction::Stop
                } else {
                    ReceiverAction::Receive(self.check_timeouts(now))
                }
            },
            ReceiverEvent::Datagram { source, bytes, micros, seen_at } => {
                match Packet::from_bytes(bytes.as_slice()) {
                    Some(packet) => ReceiverAction::Poll(
                        self.process_packet(source, packet, timestamp_us(micros), seen_at),
                    ),
                    None => ReceiverAction::Poll(Vec::new()),
                }
            },
            ReceiverEvent::Quiet => ReceiverAction::Poll(Vec::new()),
            ReceiverEvent::SocketError => ReceiverAction::Stop,
        }
    }
}

} // verus!
