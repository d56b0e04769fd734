//! The wire-packet codec: one leading kind byte followed by a payload, with
//! 16-bit PCM samples encoded little-endian for `Audio` packets.

use vstd::prelude::*;

verus! {

/// The five packet kinds of the call protocol, identified on the wire by the
/// kind bytes 0 through 4 (see `kind_byte`).
#[derive(Clone, Copy, PartialEq, Eq, Structural, Debug)]
pub enum NetworkPacketType {
    StartConnection,
    StopConnection,
    Audio,
    Heartbeat,
    Accept,
}

/// The kind byte that identifies `t` on the wire.
pub open spec fn kind_byte(t: NetworkPacketType) -> u8 {
    match t {
        NetworkPacketType::StartConnection => 0,
        NetworkPacketType::StopConnection => 1,
        NetworkPacketType::Audio => 2,
        NetworkPacketType::Heartbeat => 3,
        NetworkPacketType::Accept => 4,
    }
}

/// Whether `b` is the kind byte of some packet kind.
pub open spec fn byte_is_kind(b: u8) -> bool {
    b <= 4
}

/// The packet kind whose kind byte is `b` (meaningful only when
/// `byte_is_kind(b)`).
pub open spec fn kind_of_byte(b: u8) -> NetworkPacketType {
    if b == 0 {
        NetworkPacketType::StartConnection
    } else if b == 1 {
        NetworkPacketType::StopConnection
    } else if b == 2 {
        NetworkPacketType::Audio
    } else if b == 3 {
        NetworkPacketType::Heartbeat
    } else {
        NetworkPacketType::Accept
    }
}

/// One logical datagram: a kind and its payload bytes.
pub struct NetworkPacket {
    pub packet_type: NetworkPacketType,
    pub data: Vec<u8>,
}

/// The mathematical model of a packet: its kind and payload byte sequence.
pub ghost struct PacketModel {
    pub kind: NetworkPacketType,
    pub payload: Seq<u8>,
}

impl View for NetworkPacket {
    type V = PacketModel;

    open spec fn view(&self) -> PacketModel {
        PacketModel { kind: self.packet_type, payload: self.data@ }
    }
}

/// The wire form of a packet: its kind byte followed by its payload.
pub open spec fn spec_serialize(p: PacketModel) -> Seq<u8> {
    seq![kind_byte(p.kind)] + p.payload
}

/// The packet a datagram denotes: `None` for an empty datagram or an unknown
/// kind byte, otherwise the kind of the first byte with the rest as payload.
pub open spec fn spec_deserialize(b: Seq<u8>) -> Option<PacketModel> {
    if b.len() >= 1 && byte_is_kind(b[0]) {
        Some(PacketModel { kind: kind_of_byte(b[0]), payload: b.skip(1) })
    } else {
        None
    }
}

/// Deserializing the wire form of any packet gives the packet back.
pub proof fn lemma_packet_round_trip(p: PacketModel)
    ensures
        spec_deserialize(spec_serialize(p)) == Some(p),
{
    let b = spec_serialize(p);
    assert(b[0] == kind_byte(p.kind));
    assert(b.skip(1) =~= p.payload);
}

/// Serializing the packet a well-formed datagram denotes gives the datagram
/// back: the codec loses nothing in either direction.
pub proof fn lemma_bytes_round_trip(b: Seq<u8>)
    requires
        b.len() >= 1,
        byte_is_kind(b[0]),
    ensures
        spec_deserialize(b) is Some,
        spec_serialize(spec_deserialize(b).unwrap()) == b,
{
    let p = spec_deserialize(b).unwrap();
    assert(spec_serialize(p) =~= b);
}

/// The low byte of a sample's little-endian encoding.
pub open spec fn lo_byte(s: i16) -> u8 {
    (s as u16) as u8
}

/// The high byte of a sample's little-endian encoding.
pub open spec fn hi_byte(s: i16) -> u8 {
    ((s as u16) >> 8) as u8
}

/// The sample encoded little-endian by the byte pair `(lo, hi)`.
pub open spec fn sample_of_le(lo: u8, hi: u8) -> i16 {
    ((lo as u16) | ((hi as u16) << 8)) as i16
}

/// The little-endian byte encoding of a sample sequence, two bytes per
/// sample, low byte first.
pub open spec fn bytes_of_samples(ss: Seq<i16>) -> Seq<u8>
    decreases ss.len(),
{
    if ss.len() == 0 {
        Seq::empty()
    } else {
        seq![lo_byte(ss[0]), hi_byte(ss[0])] + bytes_of_samples(ss.skip(1))
    }
}

/// The samples encoded by a byte sequence read little-endian in pairs; a
/// trailing odd byte encodes nothing.
pub open spec fn samples_of_bytes(bs: Seq<u8>) -> Seq<i16>
    decreases bs.len(),
{
    if bs.len() < 2 {
        Seq::empty()
    } else {
        seq![sample_of_le(bs[0], bs[1])] + samples_of_bytes(bs.skip(2))
    }
}

/// Encoding a sample and decoding the byte pair gives the sample back.
pub proof fn lemma_sample_round_trip(s: i16)
    ensures
        sample_of_le(lo_byte(s), hi_byte(s)) == s,
{
    assert((((s as u16) as u8) as u16 | ((((s as u16) >> 8) as u8) as u16) << 8) as i16 == s)
        by (bit_vector);
}

/// Decoding a byte pair and re-encoding the sample gives the pair back.
pub proof fn lemma_byte_pair_round_trip(lo: u8, hi: u8)
    ensures
        lo_byte(sample_of_le(lo, hi)) == lo,
        hi_byte(sample_of_le(lo, hi)) == hi,
{
    assert(((((lo as u16) | ((hi as u16) << 8)) as i16) as u16) as u8 == lo) by (bit_vector);
    assert((((((lo as u16) | ((hi as u16) << 8)) as i16) as u16) >> 8) as u8 == hi)
        by (bit_vector);
}

/// The encoding of a sample sequence is twice as long as the sequence.
pub proof fn lemma_bytes_of_samples_len(ss: Seq<i16>)
    ensures
        bytes_of_samples(ss).len() == 2 * ss.len(),
    decreases ss.len(),
{
    if ss.len() > 0 {
        lemma_bytes_of_samples_len(ss.skip(1));
    }
}

/// Appending one sample appends its two encoding bytes.
pub proof fn lemma_bytes_of_samples_push(ss: Seq<i16>, s: i16)
    ensures
        bytes_of_samples(ss.push(s)) == bytes_of_samples(ss) + seq![lo_byte(s), hi_byte(s)],
    decreases ss.len(),
{
    if ss.len() == 0 {
        assert(ss.push(s).skip(1) =~= Seq::<i16>::empty());
        assert(ss.push(s)[0] == s);
        assert(bytes_of_samples(Seq::<i16>::empty()) =~= Seq::<u8>::empty());
        assert(bytes_of_samples(ss) =~= Seq::<u8>::empty());
        assert(bytes_of_samples(ss.push(s)) =~= bytes_of_samples(ss) + seq![
            lo_byte(s),
            hi_byte(s),
        ]);
    } else {
        assert(ss.push(s).skip(1) =~= ss.skip(1).push(s));
        lemma_bytes_of_samples_push(ss.skip(1), s);
        assert(bytes_of_samples(ss.push(s)) =~= bytes_of_samples(ss) + seq![
            lo_byte(s),
            hi_byte(s),
        ]);
    }
}

/// Appending one byte pair appends the sample it encodes, provided the
/// sequence so far holds whole pairs.
pub proof fn lemma_samples_of_bytes_push_pair(bs: Seq<u8>, lo: u8, hi: u8)
    requires
        bs.len() % 2 == 0,
    ensures
        samples_of_bytes(bs.push(lo).push(hi)) == samples_of_bytes(bs).push(sample_of_le(lo, hi)),
    decreases bs.len(),
{
    if bs.len() == 0 {
        assert(bs.push(lo).push(hi) =~= seq![lo, hi]);
        assert(seq![lo, hi].skip(2) =~= Seq::<u8>::empty());
        assert(samples_of_bytes(Seq::<u8>::empty()) =~= Seq::<i16>::empty());
        assert(samples_of_bytes(bs) =~= Seq::<i16>::empty());
        assert(seq![lo, hi][0] == lo && seq![lo, hi][1] == hi);
        assert(samples_of_bytes(bs.push(lo).push(hi)) =~= samples_of_bytes(bs).push(
            sample_of_le(lo, hi),
        ));
    } else {
        assert(bs.push(lo).push(hi).skip(2) =~= bs.skip(2).push(lo).push(hi));
        lemma_samples_of_bytes_push_pair(bs.skip(2), lo, hi);
        assert(samples_of_bytes(bs.push(lo).push(hi)) =~= samples_of_bytes(bs).push(
            sample_of_le(lo, hi),
        ));
    }
}

/// Decoding the encoding of a sample sequence gives the sequence back.
pub proof fn lemma_samples_round_trip(ss: Seq<i16>)
    ensures
        samples_of_bytes(bytes_of_samples(ss)) == ss,
    decreases ss.len(),
{
    if ss.len() == 0 {
        assert(samples_of_bytes(bytes_of_samples(ss)) =~= ss);
    } else {
        lemma_bytes_of_samples_len(ss.skip(1));
        lemma_sample_round_trip(ss[0]);
        lemma_samples_round_trip(ss.skip(1));
        assert(bytes_of_samples(ss).skip(2) =~= bytes_of_samples(ss.skip(1)));
        assert(samples_of_bytes(bytes_of_samples(ss)) =~= ss);
    }
}

/// Encoding the samples a whole-pair byte sequence decodes to gives the
/// byte sequence back: together with `lemma_samples_round_trip`, the PCM
/// byte codec loses nothing in either direction.
pub proof fn lemma_bytes_round_trip_via_samples(bs: Seq<u8>)
    requires
        bs.len() % 2 == 0,
    ensures
        bytes_of_samples(samples_of_bytes(bs)) == bs,
    decreases bs.len(),
{
    if bs.len() == 0 {
        assert(bytes_of_samples(samples_of_bytes(bs)) =~= bs);
    } else {
        lemma_byte_pair_round_trip(bs[0], bs[1]);
        lemma_bytes_round_trip_via_samples(bs.skip(2));
        assert(samples_of_bytes(bs).skip(1) =~= samples_of_bytes(bs.skip(2)));
        assert(bytes_of_samples(samples_of_bytes(bs)) =~= bs);
    }
}

/// The little-endian byte encoding of `samples`, computed.
pub fn samples_to_bytes(samples: &Vec<i16>) -> (r: Vec<u8>)
    ensures
        r@ == bytes_of_samples(samples@),
        r@.len() == 2 * samples@.len(),
{
    let mut out: Vec<u8> = Vec::new();
    let mut i: usize = 0;
    proof {
        assert(samples@.take(0) =~= Seq::<i16>::empty());
    }
    while i < samples.len()
        invariant
            i <= samples.len(),
            out@ == bytes_of_samples(samples@.take(i as int)),
            out@.len() == 2 * i,
        decreases samples.len() - i,
    {
        let s = samples[i];
        let u = #[verifier::truncate] (s as u16);
        out.push(#[verifier::truncate] (u as u8));
        out.push((u >> 8) as u8);
        proof {
            assert(samples@.take(i + 1) =~= samples@.take(i as int).push(samples@[i as int]));
            lemma_bytes_of_samples_push(samples@.take(i as int), samples@[i as int]);
            assert((u >> 8) as u8 == hi_byte(s)) by (bit_vector)
                requires
                    u == s as u16,
            ;
        }
        i = i + 1;
    }
    proof {
        assert(samples@.take(samples@.len() as int) =~= samples@);
    }
    out
}

/// The samples encoded by `bytes`, read little-endian in pairs; a trailing
/// odd byte encodes nothing.
pub fn bytes_to_samples(bytes: &Vec<u8>) -> (r: Vec<i16>)
    ensures
        r@ == samples_of_bytes(bytes@),
{
    let mut out: Vec<i16> = Vec::new();
    let mut j: usize = 0;
    proof {
        assert(bytes@.take(0) =~= Seq::<u8>::empty());
    }
    while j + 1 < bytes.len()
        invariant
            j <= bytes@.len(),
            j % 2 == 0,
            out@ == samples_of_bytes(bytes@.take(j as int)),
        decreases bytes@.len() - j,
    {
        let lo = bytes[j];
        let hi = bytes[j + 1];
        let u = (lo as u16) | ((hi as u16) << 8);
        out.push(#[verifier::truncate] (u as i16));
        proof {
            assert(bytes@.take(j + 2) =~= bytes@.take(j as int).push(bytes@[j as int]).push(
                bytes@[j + 1],
            ));
            lemma_samples_of_bytes_push_pair(bytes@.take(j as int), bytes@[j as int], bytes@[j + 1]);
        }
        j = j + 2;
    }
    proof {
        assert(j == 2 * (bytes@.len() / 2));
        lemma_samples_of_bytes_take_pairs(bytes@);
    }
    out
}

/// Decoding stops at the last whole pair: bytes past `2 * (len / 2)` do not
/// change the decoded samples.
proof fn lemma_samples_of_bytes_take_pairs(bs: Seq<u8>)
    ensures
        samples_of_bytes(bs.take(2 * (bs.len() / 2) as int)) == samples_of_bytes(bs),
    decreases bs.len(),
{
    if bs.len() < 2 {
        assert(bs.take(2 * (bs.len() / 2) as int) =~= Seq::<u8>::empty());
    } else {
        lemma_samples_of_bytes_take_pairs(bs.skip(2));
        assert(bs.take(2 * (bs.len() / 2) as int).skip(2) =~= bs.skip(2).take(
            2 * (bs.skip(2).len() / 2) as int,
        ));
        assert(samples_of_bytes(bs.take(2 * (bs.len() / 2) as int)) =~= samples_of_bytes(bs));
    }
}

impl NetworkPacket {
    /// A `StartConnection` packet (empty payload).
    pub fn new_start_connection() -> (r: Self)
        ensures
            r@ == (PacketModel { kind: NetworkPacketType::StartConnection, payload: Seq::<u8>::empty() }),
    {
        Self { packet_type: NetworkPacketType::StartConnection, data: Vec::new() }
    }

    /// A `StopConnection` packet (empty payload).
    pub fn new_stop_connection() -> (r: Self)
        ensures
            r@ == (PacketModel { kind: NetworkPacketType::StopConnection, payload: Seq::<u8>::empty() }),
    {
        Self { packet_type: NetworkPacketType::StopConnection, data: Vec::new() }
    }

    /// An `Accept` packet (empty payload).
    pub fn new_accept() -> (r: Self)
        ensures
            r@ == (PacketModel { kind: NetworkPacketType::Accept, payload: Seq::<u8>::empty() }),
    {
        Self { packet_type: NetworkPacketType::Accept, data: Vec::new() }
    }

    /// A `Heartbeat` packet (empty payload).
    pub fn new_heartbeat() -> (r: Self)
        ensures
            r@ == (PacketModel { kind: NetworkPacketType::Heartbeat, payload: Seq::<u8>::empty() }),
    {
        Self { packet_type: NetworkPacketType::Heartbeat, data: Vec::new() }
    }

    /// An `Audio` packet carrying the little-endian encoding of `audio`.
    pub fn new_audio(audio: Vec<i16>) -> (r: Self)
        ensures
            r@.kind == NetworkPacketType::Audio,
            r@.payload == bytes_of_samples(audio@),
    {
        let data = samples_to_bytes(&audio);
        Self { packet_type: NetworkPacketType::Audio, data }
    }

    /// The wire form of this packet: kind byte, then payload.
    pub fn serialize(&self) -> (r: Vec<u8>)
        ensures
            r@ == spec_serialize(self@),
    {
        let mut buffer: Vec<u8> = Vec::new();
        buffer.push(kind_to_byte(self.packet_type));
        let mut i: usize = 0;
        while i < self.data.len()
            invariant
                i <= self.data.len(),
                buffer@ == seq![kind_byte(self.packet_type)] + self.data@.take(i as int),
            decreases self.data.len() - i,
        {
            buffer.push(self.data[i]);
            i = i + 1;
            assert(buffer@ =~= seq![kind_byte(self.packet_type)] + self.data@.take(i as int));
        }
        proof {
            assert(buffer@ =~= spec_serialize(self@));
        }
        buffer
    }

    /// The packet a received datagram denotes, or `None` when the datagram is
    /// empty or its kind byte is unknown: malformed datagrams are discarded,
    /// never fatal.
    pub fn deserialize(data: Vec<u8>) -> (r: Option<Self>)
        ensures
            r is Some <==> spec_deserialize(data@) is Some,
            r matches Some(p) ==> p@ == spec_deserialize(data@).unwrap(),
    {
        if data.len() == 0 {
            return None;
        }
        let packet_type = match byte_to_kind(data[0]) {
            Some(t) => t,
            None => {
                return None;
            },
        };
        let mut payload: Vec<u8> = Vec::new();
        let mut i: usize = 1;
        while i < data.len()
            invariant
                1 <= i <= data.len(),
                payload@ == data@.subrange(1, i as int),
            decreases data.len() - i,
        {
            payload.push(data[i]);
            i = i + 1;
            assert(payload@ =~= data@.subrange(1, i as int));
        }
        proof {
            assert(payload@ =~= data@.skip(1));
        }
        Some(Self { packet_type, data: payload })
    }
}

/// The kind byte of `t`, computed.
pub fn kind_to_byte(t: NetworkPacketType) -> (r: u8)
    ensures
        r == kind_byte(t),
{
    match t {
        NetworkPacketType::StartConnection => 0,
        NetworkPacketType::StopConnection => 1,
        NetworkPacketType::Audio => 2,
        NetworkPacketType::Heartbeat => 3,
        NetworkPacketType::Accept => 4,
    }
}

/// The packet kind of a kind byte, or `None` for an unknown byte.
pub fn byte_to_kind(b: u8) -> (r: Option<NetworkPacketType>)
    ensures
        r is Some <==> byte_is_kind(b),
        r matches Some(t) ==> t == kind_of_byte(b),
{
    match b {
        0 => Some(NetworkPacketType::StartConnection),
        1 => Some(NetworkPacketType::StopConnection),
        2 => Some(NetworkPacketType::Audio),
        3 => Some(NetworkPacketType::Heartbeat),
        4 => Some(NetworkPacketType::Accept),
        _ => None,
    }
}

} // verus!
