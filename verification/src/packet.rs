//! The probe packet and its form on the wire.
use vstd::prelude::*;

verus! {

/// How many bytes a packet takes on the wire: two 64-bit numbers and a flag.
pub const PACKET_SIZE: usize = 17;

/// One probe: its number in the sender's sequence, the sender's clock when it was made, in
/// microseconds since the Unix epoch, and whether the sender is leaving.
#[derive(Clone, Copy, Debug, PartialEq, Eq, Structural)]
pub struct Packet {
    pub sequence: u64,
    pub timestamp_us: u64,
    pub is_final: bool,
}

/// The lowest `n` bytes of `x`, least significant first.
pub open spec fn le_bytes(x: nat, n: nat) -> Seq<u8>
    decreases n,
{
    if n == 0 {
        Seq::empty()
    } else {
        seq![(x % 256) as u8] + le_bytes(x / 256, (n - 1) as nat)
    }
}

/// The number whose bytes are `s`, least significant first.
pub open spec fn le_value(s: Seq<u8>) -> nat
    decreases s.len(),
{
    if s.len() == 0 {
        0
    } else {
        s[0] as nat + 256 * le_value(s.skip(1))
    }
}

/// A packet on the wire: the sequence number and the timestamp as little-endian 64-bit numbers,
/// then one byte for the flag.
pub open spec fn encoded(packet: Packet) -> Seq<u8> {
    le_bytes(packet.sequence as nat, 8) + le_bytes(packet.timestamp_us as nat, 8) + seq![
        if packet.is_final {
            1u8
        } else {
            0u8
        },
    ]
}

/// The packet that `bytes` begin with. What follows a packet is ignored. There is none where
/// `bytes` are too few, or where the flag is neither 0 nor 1.
pub open spec fn decoded(bytes: Seq<u8>) -> Option<Packet> {
    if bytes.len() >= PACKET_SIZE && bytes[16] <= 1 {
        Some(
            Packet {
                sequence: le_value(bytes.subrange(0, 8)) as u64,
                timestamp_us: le_value(bytes.subrange(8, 16)) as u64,
                is_final: bytes[16] == 1,
            },
        )
    } else {
        None
    }
}

/// The error type of `bincode`, which nothing here looks into.
#[verifier::external_type_specification]
#[verifier::external_body]
pub struct ExErrorKind(bincode::ErrorKind);

/// Calls `bincode::serialize` on the three fields. Its fixed configuration writes integers at full
/// width and little-endian, a `bool` as one byte, and nothing between the members of a tuple or of
/// a struct; writing into a `Vec` without a size limit does not fail.
#[verifier::external_body]
fn bincode_serialize(sequence: u64, timestamp_us: u64, is_final: bool) -> (bytes: Result<
    Vec<u8>,
    Box<bincode::ErrorKind>,
>)
    ensures
        bytes is Ok,
        bytes->Ok_0@ == encoded((Packet { sequence, timestamp_us, is_final })),
{
    bincode::serialize(&(sequence, timestamp_us, is_final))
}

/// Calls `bincode::deserialize` for the three fields. Its fixed configuration reads what
/// `bincode::serialize` writes, lets bytes follow, and fails where bytes are missing or where the
/// byte of a `bool` is neither 0 nor 1.
#[verifier::external_body]
fn bincode_deserialize(bytes: &[u8]) -> (fields: Result<(u64, u64, bool), Box<bincode::ErrorKind>>)
    ensures
        match decoded(bytes@) {
            Some(packet) => fields == Ok::<(u64, u64, bool), Box<bincode::ErrorKind>>(
                (packet.sequence, packet.timestamp_us, packet.is_final),
            ),
            None => fields is Err,
        },
{
    bincode::deserialize::<(u64, u64, bool)>(bytes)
}

impl Packet {
    /// The packet's bytes on the wire.
    pub fn to_bytes(&self) -> (bytes: Vec<u8>)
        ensures
            bytes@ == encoded(*self),
    {
        bincode_serialize(self.sequence, self.timestamp_us, self.is_final).unwrap()
    }

    /// The packet that a datagram holds, if it holds one.
    pub fn from_bytes(bytes: &[u8]) -> (packet: Option<Packet>)
        ensures
            packet == decoded(bytes@),
    {
        match bincode_deserialize(bytes) {
            Ok((sequence, timestamp_us, is_final)) => Some(
                Packet { sequence, timestamp_us, is_final },
            ),
            Err(_) => None,
        }
    }
}

/// 256 to the power of `n`.
spec fn pow256(n: nat) -> nat
    decreases n,
{
    if n == 0 {
        1
    } else {
        256 * pow256((n - 1) as nat)
    }
}

proof fn lemma_le_bytes_read_back(x: nat, n: nat)
    requires
        x < pow256(n),
    ensures
        le_bytes(x, n).len() == n,
        le_value(le_bytes(x, n)) == x,
    decreases n,
{
    if n > 0 {
        lemma_le_bytes_read_back(x / 256, (n - 1) as nat);
        assert(le_bytes(x, n).skip(1) =~= le_bytes(x / 256, (n - 1) as nat));
    }
}

proof fn lemma_le_value_writes_back(s: Seq<u8>)
    ensures
        le_value(s) < pow256(s.len()),
        le_bytes(le_value(s), s.len()) == s,
    decreases s.len(),
{
    if s.len() > 0 {
        lemma_le_value_writes_back(s.skip(1));
        assert(seq![s[0]] + s.skip(1) =~= s);
    } else {
        assert(le_bytes(0, 0) =~= s);
    }
}

proof fn lemma_pow256_of_8()
    ensures
        pow256(8) == 0x1_0000_0000_0000_0000,
{
    reveal_with_fuel(pow256, 9);
}

/// A receiver reads exactly the packet that was sent, whatever bytes follow it in the buffer.
pub proof fn packet_reads_back(packet: Packet, rest: Seq<u8>)
    ensures
        encoded(packet).len() == PACKET_SIZE,
        decoded(encoded(packet) + rest) == Some(packet),
{
    lemma_pow256_of_8();
    lemma_le_bytes_read_back(packet.sequence as nat, 8);
    lemma_le_bytes_read_back(packet.timestamp_us as nat, 8);
    let bytes = encoded(packet) + rest;
    assert(bytes.subrange(0, 8) =~= le_bytes(packet.sequence as nat, 8));
    assert(bytes.subrange(8, 16) =~= le_bytes(packet.timestamp_us as nat, 8));
}

/// A datagram is read as a packet only where it begins with that packet's own bytes: no two forms
/// on the wire stand for one packet.
pub proof fn packet_has_one_form(bytes: Seq<u8>, packet: Packet)
    requires
        decoded(bytes) == Some(packet),
    ensures
        bytes.take(PACKET_SIZE as int) == encoded(packet),
{
    lemma_pow256_of_8();
    lemma_le_value_writes_back(bytes.subrange(0, 8));
    lemma_le_value_writes_back(bytes.subrange(8, 16));
    assert(bytes.take(17) =~= bytes.subrange(0, 8) + bytes.subrange(8, 16) + seq![bytes[16]]);
}

/// The 64-bit number whose eight bytes stand in `bytes` from `start` on, least significant first.
pub open spec fn number_at(bytes: Seq<u8>, start: int) -> int {
    bytes[start] + 0x100 * bytes[start + 1] + 0x1_0000 * bytes[start + 2] + 0x100_0000 * bytes[start
        + 3] + 0x1_0000_0000 * bytes[start + 4] + 0x100_0000_0000 * bytes[start + 5]
        + 0x1_0000_0000_0000 * bytes[start + 6] + 0x100_0000_0000_0000 * bytes[start + 7]
}

proof fn lemma_le_value_skip(s: Seq<u8>, k: int)
    requires
        0 <= k < s.len(),
    ensures
        le_value(s.skip(k)) == s[k] + 256 * le_value(s.skip(k + 1)),
{
    assert(s.skip(k).skip(1) =~= s.skip(k + 1));
}

proof fn lemma_le_value_of_8(bytes: Seq<u8>, start: int)
    requires
        0 <= start,
        start + 8 <= bytes.len(),
    ensures
        le_value(bytes.subrange(start, start + 8)) == number_at(bytes, start),
{
    let s = bytes.subrange(start, start + 8);
    lemma_le_value_skip(s, 0);
    lemma_le_value_skip(s, 1);
    lemma_le_value_skip(s, 2);
    lemma_le_value_skip(s, 3);
    lemma_le_value_skip(s, 4);
    lemma_le_value_skip(s, 5);
    lemma_le_value_skip(s, 6);
    lemma_le_value_skip(s, 7);
    assert(s.skip(0) =~= s);
    assert(le_value(s.skip(8)) == 0);
}

/// A datagram holds a packet exactly where it has at least 17 bytes and the last of these is 0 or
/// 1. The first eight are the number, the next eight the time, both least significant byte first,
/// and the last says whether the sender is leaving.
pub proof fn datagram_is_read_byte_by_byte(bytes: Seq<u8>)
    ensures
        decoded(bytes) is Some <==> bytes.len() >= 17 && (bytes[16] == 0 || bytes[16] == 1),
        decoded(bytes) matches Some(packet) ==> {
            &&& packet.sequence == number_at(bytes, 0)
            &&& packet.timestamp_us == number_at(bytes, 8)
            &&& packet.is_final <==> bytes[16] == 1
        },
{
    if bytes.len() >= 17 {
        lemma_pow256_of_8();
        lemma_le_value_writes_back(bytes.subrange(0, 8));
        lemma_le_value_writes_back(bytes.subrange(8, 16));
        lemma_le_value_of_8(bytes, 0);
        lemma_le_value_of_8(bytes, 8);
    }
}

/// A packet takes 17 bytes: eight for the number and eight for the time, both least significant
/// byte first, and one that is 1 where the sender is leaving and 0 otherwise.
pub proof fn packet_is_written_byte_by_byte(packet: Packet)
    ensures
        encoded(packet).len() == 17,
        number_at(encoded(packet), 0) == packet.sequence,
        number_at(encoded(packet), 8) == packet.timestamp_us,
        encoded(packet)[16] == if packet.is_final {
            1u8
        } else {
            0u8
        },
{
    packet_reads_back(packet, Seq::empty());
    assert(encoded(packet) + Seq::<u8>::empty() =~= encoded(packet));
    datagram_is_read_byte_by_byte(encoded(packet));
}

} // verus!
