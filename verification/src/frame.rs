//! Untyped network packets and the length-prefixed wire framing.
//!
//! On the wire every packet is sent as an 8-byte little-endian length
//! followed by the bincode encoding (standard configuration) of the packet's
//! three fields: type name, schema hash and payload. Several frames may be
//! concatenated into one buffer (a batch).

use vstd::prelude::*;
use vstd::bytes::*;
use vstd::slice::slice_subrange;
use crate::bytes::append_bytes;

verus! {

/// Errors of the packet codecs.
#[derive(Debug, Clone, Copy, PartialEq, Eq)]
pub enum NetworkError {
    /// A buffer could not be turned into a packet, or a packet into bytes.
    Serialization,
}

/// An untyped packet as sent over the wire.
///
/// The packet carries the full type name of the message (for debugging and
/// routing), a schema hash computed from the short type name (for matching),
/// and the serialized message itself.
pub struct NetworkPacket {
    /// Full type name including the module path.
    pub type_path: String,
    /// Hash of the short type name.
    pub schema_hash: u64,
    /// The serialized message.
    pub data: Vec<u8>,
}

/// Mathematical model of a [`NetworkPacket`].
pub struct PacketView {
    pub type_path: Seq<char>,
    pub schema_hash: u64,
    pub data: Seq<u8>,
}

impl View for NetworkPacket {
    type V = PacketView;

    open spec fn view(&self) -> PacketView {
        PacketView { type_path: self.type_path@, schema_hash: self.schema_hash, data: self.data@ }
    }
}

impl NetworkPacket {
    /// Builds a packet from its three parts.
    pub fn new(type_path: String, schema_hash: u64, data: Vec<u8>) -> (p: NetworkPacket)
        ensures
            p@ == (PacketView { type_path: type_path@, schema_hash, data: data@ }),
    {
        NetworkPacket { type_path, schema_hash, data }
    }
}

#[verifier::external_type_specification]
#[verifier::external_body]
pub struct ExEncodeError(bincode::error::EncodeError);

#[verifier::external_type_specification]
#[verifier::external_body]
pub struct ExDecodeError(bincode::error::DecodeError);

/// The bytes that bincode (standard configuration) produces for a packet
/// with the given type name, schema hash and payload.
pub uninterp spec fn bincode_packet_encoding(type_path: Seq<char>, schema_hash: u64, data: Seq<u8>) -> Seq<u8>;

/// The packet that bincode (standard configuration) decodes from the start
/// of `bytes`, if any.
pub uninterp spec fn bincode_packet_decoding(bytes: Seq<u8>) -> Option<(Seq<char>, u64, Seq<u8>)>;

/// What bincode's variable-length integer encoding (standard configuration)
/// reads from the start of `bytes` as a `u64`, with the number of bytes it
/// takes: a first byte up to 250 is the value itself; 251, 252 and 253 are
/// followed by the value as a little-endian `u16`, `u32` or `u64`; any other
/// first byte, or too few bytes, is an error.
pub open spec fn bincode_u64_decoding(bytes: Seq<u8>) -> Option<(u64, nat)> {
    if bytes.len() == 0 {
        None
    } else if bytes[0] <= 250 {
        Some((bytes[0] as u64, 1))
    } else if bytes[0] == 251 {
        if bytes.len() >= 3 {
            Some((spec_u16_from_le_bytes(bytes.subrange(1, 3)) as u64, 3))
        } else {
            None
        }
    } else if bytes[0] == 252 {
        if bytes.len() >= 5 {
            Some((spec_u32_from_le_bytes(bytes.subrange(1, 5)) as u64, 5))
        } else {
            None
        }
    } else if bytes[0] == 253 {
        if bytes.len() >= 9 {
            Some((spec_u64_from_le_bytes(bytes.subrange(1, 9)), 9))
        } else {
            None
        }
    } else {
        None
    }
}

/// The length that starts an encoded packet (that of its type name) is no
/// more than the bytes that follow it, or cannot be read at all.
pub open spec fn leading_length_fits(bytes: Seq<u8>) -> bool {
    match bincode_u64_decoding(bytes) {
        Some((len, n)) => len <= bytes.len() - n,
        None => true,
    }
}

/// Decodes a `u64` from the start of `bytes` with
/// `bincode::serde::decode_from_slice` and `bincode::config::standard()`.
///
/// Claimed of the outside code: the outcome is the variable-length decoding
/// spelled out in `bincode_u64_decoding`, `Err` exactly when that gives
/// nothing, with the number of bytes read.
#[verifier::external_body]
pub(crate) fn bincode_decode_u64(bytes: &[u8]) -> (r: Result<(u64, usize), bincode::error::DecodeError>)
    ensures
        r matches Ok((v, n)) ==> bincode_u64_decoding(bytes@) == Some((v, n as nat)),
        r is Err ==> bincode_u64_decoding(bytes@) is None,
{
    bincode::serde::decode_from_slice::<u64, _>(bytes, bincode::config::standard())
}

/// Encodes the three packet fields with `bincode::serde::encode_to_vec` and
/// `bincode::config::standard()`.
///
/// Claimed of the outside code: the result is `Ok` (for a string, an integer
/// and a byte vector the serde encoder of bincode writes into a growing vector
/// and has no failing path); its bytes are the named encoding of the
/// arguments, at least three long (each field takes at least one byte); they
/// start with the length of the type name, followed by at least that many
/// bytes (the name itself); and decoding exactly those bytes gives the
/// arguments back.
#[verifier::external_body]
fn bincode_encode_packet(type_path: &String, schema_hash: u64, data: &Vec<u8>) -> (r: Result<
    Vec<u8>,
    bincode::error::EncodeError,
>)
    ensures
        r is Ok,
        r matches Ok(bytes) ==> bytes@ == bincode_packet_encoding(type_path@, schema_hash, data@),
        r matches Ok(bytes) ==> bytes@.len() >= 3,
        r matches Ok(bytes) ==> leading_length_fits(bytes@),
        r matches Ok(bytes) ==> bincode_packet_decoding(bytes@) == Some(
            (type_path@, schema_hash, data@),
        ),
{
    bincode::serde::encode_to_vec((type_path, schema_hash, data), bincode::config::standard())
}

/// Decodes a packet (type name, schema hash, payload) from the start of
/// `bytes` with `bincode::serde::decode_from_slice` and
/// `bincode::config::standard()`; trailing bytes are ignored.
///
/// Required: the length that starts the input is no more than the bytes
/// after it. bincode allocates a buffer of that length for the type name
/// before reading it, and a length beyond `isize::MAX` would make that
/// allocation panic. (The payload's length is only a hint there: serde caps
/// what it preallocates.)
///
/// Claimed of the outside code: the outcome is the named decoding of the
/// input, `Err` exactly when that decoding is `None`.
#[verifier::external_body]
fn bincode_decode_packet(bytes: &[u8]) -> (r: Result<(String, u64, Vec<u8>), bincode::error::DecodeError>)
    requires
        leading_length_fits(bytes@),
    ensures
        r matches Ok(p) ==> bincode_packet_decoding(bytes@) == Some((p.0@, p.1, p.2@)),
        r is Err ==> bincode_packet_decoding(bytes@) is None,
{
    bincode::serde::decode_from_slice::<(String, u64, Vec<u8>), _>(bytes, bincode::config::standard()).map(
        |(p, _)| p,
    )
}

/// The bincode bytes of a packet.
pub open spec fn packet_bytes(p: PacketView) -> Seq<u8> {
    bincode_packet_encoding(p.type_path, p.schema_hash, p.data)
}

/// The packet decoded from the start of `bytes`, if any: none when the
/// type name's length claims more bytes than there are.
pub open spec fn packet_from_bytes(bytes: Seq<u8>) -> Option<PacketView> {
    if !leading_length_fits(bytes) {
        None
    } else {
        match bincode_packet_decoding(bytes) {
            Some((t, h, d)) => Some(PacketView { type_path: t, schema_hash: h, data: d }),
            None => None,
        }
    }
}

/// The number that the first 8 bytes give, read as a little-endian `u64`.
pub open spec fn u64_le_prefix(bytes: Seq<u8>) -> u64 {
    spec_u64_from_le_bytes(bytes.take(8))
}

/// `payload` preceded by its length as 8 little-endian bytes.
pub open spec fn frame(payload: Seq<u8>) -> Seq<u8> {
    spec_u64_to_le_bytes(payload.len() as u64) + payload
}

/// The wire frame of a packet.
pub open spec fn packet_frame(p: PacketView) -> Seq<u8> {
    frame(packet_bytes(p))
}

/// A packet whose encoding decodes back to it and whose length fits the
/// 8-byte prefix.
pub open spec fn packet_roundtrips(p: PacketView) -> bool {
    &&& packet_from_bytes(packet_bytes(p)) == Some(p)
    &&& packet_bytes(p).len() <= u64::MAX
}

/// The frames of a sequence of packets, one after the other.
pub open spec fn concat_frames(ps: Seq<PacketView>) -> Seq<u8>
    decreases ps.len(),
{
    if ps.len() == 0 {
        Seq::empty()
    } else {
        packet_frame(ps[0]) + concat_frames(ps.skip(1))
    }
}

/// The packets read from a buffer of concatenated frames: frames are read
/// from the front while a complete 8-byte length, a complete payload of that
/// length and a decodable packet are found; reading stops at the first
/// frame for which one of these is missing.
pub open spec fn spec_decode_all(data: Seq<u8>) -> Seq<PacketView>
    decreases data.len(),
{
    if data.len() < 8 {
        Seq::empty()
    } else {
        let len = spec_u64_from_le_bytes(data.take(8)) as int;
        if len > data.len() - 8 {
            Seq::empty()
        } else {
            match packet_from_bytes(data.subrange(8, 8 + len)) {
                None => Seq::empty(),
                Some(p) => seq![p] + spec_decode_all(data.skip(8 + len)),
            }
        }
    }
}

/// What the multi-message codec decodes from a buffer: the packet encoded
/// after the first 8 bytes (the length prefix itself is not consulted).
pub open spec fn spec_codec_decode(bytes: Seq<u8>) -> Option<PacketView> {
    if bytes.len() < 8 {
        None
    } else {
        packet_from_bytes(bytes.skip(8))
    }
}

/// Views of a sequence of packets.
pub open spec fn packets_view(ps: Seq<NetworkPacket>) -> Seq<PacketView> {
    ps.map_values(|p: NetworkPacket| p@)
}

proof fn lemma_le_bytes_len(x: u64)
    ensures
        spec_u64_to_le_bytes(x).len() == 8,
        spec_u64_from_le_bytes(spec_u64_to_le_bytes(x)) == x,
{
    lemma_auto_spec_u64_to_from_le_bytes();
}

/// Appending one packet to a sequence appends its frame to the bytes.
pub proof fn lemma_concat_frames_push(ps: Seq<PacketView>, p: PacketView)
    ensures
        concat_frames(ps.push(p)) == concat_frames(ps) + packet_frame(p),
    decreases ps.len(),
{
    if ps.len() == 0 {
        assert(ps.push(p).skip(1) =~= Seq::<PacketView>::empty());
        assert(concat_frames(Seq::<PacketView>::empty()) == Seq::<u8>::empty());
        assert(concat_frames(ps.push(p)) =~= concat_frames(ps) + packet_frame(p));
    } else {
        assert(ps.push(p).skip(1) =~= ps.skip(1).push(p));
        lemma_concat_frames_push(ps.skip(1), p);
        assert(concat_frames(ps.push(p)) =~= concat_frames(ps) + packet_frame(p));
    }
}

/// Reading a buffer that starts with a packet's frame yields that packet
/// followed by whatever the rest of the buffer yields.
pub proof fn lemma_decode_all_frame_prefix(p: PacketView, rest: Seq<u8>)
    requires
        packet_roundtrips(p),
    ensures
        spec_decode_all(packet_frame(p) + rest) == seq![p] + spec_decode_all(rest),
{
    let enc = packet_bytes(p);
    let el: int = enc.len() as int;
    let data = packet_frame(p) + rest;
    lemma_le_bytes_len(enc.len() as u64);
    assert(data.take(8) =~= spec_u64_to_le_bytes(enc.len() as u64));
    assert(data.subrange(8, 8 + el) =~= enc);
    assert(data.skip(8 + el) =~= rest);
}

/// Reading the concatenated frames of packets that round-trip gives the
/// packets back.
pub proof fn lemma_decode_all_concat(ps: Seq<PacketView>)
    requires
        forall|i: int| 0 <= i < ps.len() ==> packet_roundtrips(#[trigger] ps[i]),
    ensures
        spec_decode_all(concat_frames(ps)) == ps,
    decreases ps.len(),
{
    if ps.len() == 0 {
        assert(spec_decode_all(Seq::<u8>::empty()) == Seq::<PacketView>::empty());
    } else {
        assert(packet_roundtrips(ps[0]));
        assert forall|i: int| 0 <= i < ps.skip(1).len() implies packet_roundtrips(
            #[trigger] ps.skip(1)[i],
        ) by {
            assert(ps.skip(1)[i] == ps[i + 1]);
        }
        lemma_decode_all_concat(ps.skip(1));
        lemma_decode_all_frame_prefix(ps[0], concat_frames(ps.skip(1)));
        assert(seq![ps[0]] + ps.skip(1) =~= ps);
    }
}

/// The frames of two sequences of packets, one after the other, are the
/// frames of the joined sequence.
pub proof fn lemma_concat_frames_append(a: Seq<PacketView>, b: Seq<PacketView>)
    ensures
        concat_frames(a + b) == concat_frames(a) + concat_frames(b),
    decreases a.len(),
{
    if a.len() == 0 {
        assert(a + b =~= b);
        assert(concat_frames(a) + concat_frames(b) =~= concat_frames(b));
    } else {
        lemma_concat_frames_append(a.skip(1), b);
        assert((a + b).skip(1) =~= a.skip(1) + b);
        assert((a + b)[0] == a[0]);
        assert(concat_frames(a + b) =~= concat_frames(a) + concat_frames(b));
    }
}

/// The bytes a connection writes when it sends these batches in order,
/// each encoded as one buffer of frames.
pub open spec fn written_bytes(batches: Seq<Seq<PacketView>>) -> Seq<u8>
    decreases batches.len(),
{
    if batches.len() == 0 {
        Seq::empty()
    } else {
        written_bytes(batches.drop_last()) + concat_frames(batches.last())
    }
}

/// The packets of these batches, in order.
pub open spec fn sent_packets(batches: Seq<Seq<PacketView>>) -> Seq<PacketView>
    decreases batches.len(),
{
    if batches.len() == 0 {
        Seq::empty()
    } else {
        sent_packets(batches.drop_last()) + batches.last()
    }
}

/// However packets are grouped into batches on the way out, the bytes
/// written are the frames of all the packets in order, and reading them
/// back gives every packet, in order.
pub proof fn law_batched_writes_read_back(batches: Seq<Seq<PacketView>>)
    requires
        forall|i: int, j: int|
            0 <= i < batches.len() && 0 <= j < batches[i].len() ==> packet_roundtrips(#[trigger] batches[i][j]),
    ensures
        written_bytes(batches) == concat_frames(sent_packets(batches)),
        forall|k: int| 0 <= k < sent_packets(batches).len() ==> packet_roundtrips(#[trigger] sent_packets(batches)[k]),
        spec_decode_all(written_bytes(batches)) == sent_packets(batches),
    decreases batches.len(),
{
    if batches.len() == 0 {
        assert(concat_frames(Seq::<PacketView>::empty()) == Seq::<u8>::empty());
    } else {
        let init = batches.drop_last();
        let last = batches.last();
        assert forall|i: int, j: int| 0 <= i < init.len() && 0 <= j < init[i].len() implies packet_roundtrips(
            #[trigger] init[i][j],
        ) by {
            assert(init[i] == batches[i]);
        }
        law_batched_writes_read_back(init);
        lemma_concat_frames_append(sent_packets(init), last);
        let all = sent_packets(batches);
        assert(all == sent_packets(init) + last);
        assert forall|k: int| 0 <= k < all.len() implies packet_roundtrips(#[trigger] all[k]) by {
            if k < sent_packets(init).len() {
                assert(all[k] == sent_packets(init)[k]);
            } else {
                let j = k - sent_packets(init).len();
                assert(all[k] == last[j]);
                assert(last == batches[batches.len() - 1]);
                assert(packet_roundtrips(batches[batches.len() - 1][j]));
            }
        }
    }
    lemma_decode_all_concat(sent_packets(batches));
}

/// Encodes a packet's fields with bincode.
pub fn encode_packet(packet: &NetworkPacket) -> (r: Result<Vec<u8>, NetworkError>)
    ensures
        r is Ok,
        r matches Ok(bytes) ==> bytes@ == packet_bytes(packet@),
        r matches Ok(bytes) ==> packet_roundtrips(packet@),
        r matches Ok(bytes) ==> bytes@.len() >= 3,
{
    match bincode_encode_packet(&packet.type_path, packet.schema_hash, &packet.data) {
        Ok(bytes) => {
            let n = bytes.len();
            proof {
                assert(n as int <= u64::MAX);
            }
            Ok(bytes)
        },
        Err(_) => Err(NetworkError::Serialization),
    }
}

/// Decodes a packet from the start of `bytes`.
pub fn decode_packet(bytes: &[u8]) -> (r: Result<NetworkPacket, NetworkError>)
    ensures
        r matches Ok(p) ==> packet_from_bytes(bytes@) == Some(p@),
        r is Err ==> packet_from_bytes(bytes@) is None,
{
    match bincode_decode_u64(bytes) {
        Ok((len, read)) => {
            if len > (bytes.len() - read) as u64 {
                return Err(NetworkError::Serialization);
            }
        },
        Err(_) => {},
    }
    match bincode_decode_packet(bytes) {
        Ok((type_path, schema_hash, data)) => Ok(NetworkPacket { type_path, schema_hash, data }),
        Err(_) => Err(NetworkError::Serialization),
    }
}

/// Appends `payload` to `out` as one frame: its length as 8 little-endian
/// bytes, then the payload.
pub fn write_frame(out: &mut Vec<u8>, payload: &[u8])
    ensures
        final(out)@ == old(out)@ + frame(payload@),
{
    let len = payload.len() as u64;
    let header = u64_to_le_bytes(len);
    append_bytes(out, header.as_slice());
    append_bytes(out, payload);
    proof {
        assert(final(out)@ =~= old(out)@ + frame(payload@));
    }
}

/// The primary codec of the WebSocket protocol: one packet per buffer,
/// written as a length-prefixed frame.
pub struct Pl3xusBincodeCodec;

impl Pl3xusBincodeCodec {
    /// Encodes a packet as a frame (8-byte little-endian length, then the
    /// bincode bytes of the packet). Decoding the result gives the packet back.
    pub fn encode(val: &NetworkPacket) -> (r: Result<Vec<u8>, NetworkError>)
        ensures
            r is Ok,
            r matches Ok(bytes) ==> bytes@ == packet_frame(val@),
            r matches Ok(bytes) ==> bytes@.len() > 8,
            r matches Ok(bytes) ==> u64_le_prefix(bytes@) == bytes@.len() - 8,
            r matches Ok(bytes) ==> spec_codec_decode(bytes@) == Some(val@),
    {
        let encoded = encode_packet(val)?;
        let mut buffer: Vec<u8> = Vec::new();
        write_frame(&mut buffer, encoded.as_slice());
        proof {
            lemma_le_bytes_len(encoded@.len() as u64);
            assert(buffer@.skip(8) =~= encoded@);
            assert(buffer@.take(8) =~= spec_u64_to_le_bytes(encoded@.len() as u64));
        }
        Ok(buffer)
    }

    /// Decodes a packet from a buffer: fails on a buffer shorter than the
    /// 8-byte prefix, and otherwise decodes the packet that follows it.
    pub fn decode(val: &[u8]) -> (r: Result<NetworkPacket, NetworkError>)
        ensures
            r matches Ok(p) ==> spec_codec_decode(val@) == Some(p@),
            r is Err ==> spec_codec_decode(val@) is None,
    {
        if val.len() < 8 {
            return Err(NetworkError::Serialization);
        }
        let body = slice_subrange(val, 8, val.len());
        proof {
            assert(body@ =~= val@.skip(8));
        }
        decode_packet(body)
    }
}

/// Convenience codec for connections that carry a single message type: the
/// serialized message is wrapped in a packet on the way out, and the
/// payload of the packet is handed back on the way in.
pub struct Pl3xusBincodeSingleMsgCodec;

impl Pl3xusBincodeSingleMsgCodec {
    /// Wraps an already serialized message in a packet with the given type
    /// name and schema hash and encodes the packet as a frame.
    pub fn encode(type_path: &str, schema_hash: u64, payload: Vec<u8>) -> (r: Result<Vec<u8>, NetworkError>)
        ensures
            r is Ok,
            r matches Ok(bytes) ==> bytes@ == packet_frame(
                PacketView { type_path: type_path@, schema_hash, data: payload@ },
            ),
            r matches Ok(bytes) ==> bytes@.len() > 8,
            r matches Ok(bytes) ==> u64_le_prefix(bytes@) == bytes@.len() - 8,
            r matches Ok(bytes) ==> spec_codec_decode(bytes@) == Some(
                PacketView { type_path: type_path@, schema_hash, data: payload@ },
            ),
    {
        let packet = NetworkPacket { type_path: type_path.to_owned(), schema_hash, data: payload };
        Pl3xusBincodeCodec::encode(&packet)
    }

    /// Decodes the packet of a frame and returns its payload (the serialized
    /// message).
    pub fn decode(val: &[u8]) -> (r: Result<Vec<u8>, NetworkError>)
        ensures
            r matches Ok(data) ==> spec_codec_decode(val@) is Some && spec_codec_decode(
                val@,
            )->0.data == data@,
            r is Err ==> spec_codec_decode(val@) is None,
    {
        let packet = Pl3xusBincodeCodec::decode(val)?;
        Ok(packet.data)
    }
}

/// Decodes every length-prefixed packet of a buffer (a server may batch
/// several frames into one message). Reading stops at an incomplete length,
/// an incomplete payload or a payload that does not decode; the packets
/// read before that point are returned.
pub fn decode_all_packets(data: &[u8]) -> (packets: Vec<NetworkPacket>)
    ensures
        packets_view(packets@) == spec_decode_all(data@),
{
    let mut packets: Vec<NetworkPacket> = Vec::new();
    let mut offset: usize = 0;
    let n = data.len();
    proof {
        assert(data@.skip(0) =~= data@);
    }
    loop
        invariant
            n == data@.len(),
            offset <= n,
            packets_view(packets@) + spec_decode_all(data@.skip(offset as int)) == spec_decode_all(
                data@,
            ),
        ensures
            packets_view(packets@) == spec_decode_all(data@),
        decreases n - offset,
    {
        let ghost rest = data@.skip(offset as int);
        if n - offset < 8 {
            proof {
                assert(spec_decode_all(rest) == Seq::<PacketView>::empty());
                assert(packets_view(packets@) + Seq::<PacketView>::empty() =~= packets_view(
                    packets@,
                ));
            }
            break;
        }
        let header = slice_subrange(data, offset, offset + 8);
        let length = u64_from_le_bytes(header);
        proof {
            assert(header@ =~= rest.take(8));
        }
        let available = n - offset - 8;
        if length > available as u64 {
            proof {
                assert(spec_decode_all(rest) == Seq::<PacketView>::empty());
                assert(packets_view(packets@) + Seq::<PacketView>::empty() =~= packets_view(
                    packets@,
                ));
            }
            break;
        }
        let len = length as usize;
        let start = offset + 8;
        let payload = slice_subrange(data, start, start + len);
        proof {
            assert(payload@ =~= rest.subrange(8, 8 + len));
        }
        match decode_packet(payload) {
            Ok(packet) => {
                let ghost old_packets = packets@;
                packets.push(packet);
                proof {
                    assert(data@.skip((start + len) as int) =~= rest.skip(8 + len));
                    assert(packets_view(packets@) =~= packets_view(old_packets).push(packet@));
                    assert(spec_decode_all(rest) == seq![packet@] + spec_decode_all(
                        rest.skip(8 + len),
                    ));
                    assert(packets_view(old_packets) + (seq![packet@] + spec_decode_all(
                        rest.skip(8 + len),
                    )) =~= packets_view(packets@) + spec_decode_all(rest.skip(8 + len)));
                }
                offset = start + len;
            },
            Err(_) => {
                proof {
                    assert(spec_decode_all(rest) == Seq::<PacketView>::empty());
                    assert(packets_view(packets@) + Seq::<PacketView>::empty() =~= packets_view(
                        packets@,
                    ));
                }
                break;
            },
        }
    }
    packets
}

/// Encodes a batch of packets into one buffer, each as a length-prefixed
/// frame, in order. Reading the buffer back gives the batch.
pub fn encode_batch(batch: &Vec<NetworkPacket>) -> (buffer: Vec<u8>)
    ensures
        buffer@ == concat_frames(packets_view(batch@)),
        spec_decode_all(buffer@) == packets_view(batch@),
        forall|i: int| 0 <= i < batch@.len() ==> packet_roundtrips(#[trigger] packets_view(batch@)[i]),
{
    let mut buffer: Vec<u8> = Vec::new();
    let n = batch.len();
    let mut i: usize = 0;
    proof {
        assert(packets_view(batch@).take(0) =~= Seq::<PacketView>::empty());
    }
    while i < n
        invariant
            n == batch@.len(),
            i <= n,
            buffer@ == concat_frames(packets_view(batch@).take(i as int)),
            forall|j: int| 0 <= j < i ==> packet_roundtrips(#[trigger] packets_view(batch@)[j]),
        decreases n - i,
    {
        match encode_packet(&batch[i]) {
            Ok(encoded) => {
                write_frame(&mut buffer, encoded.as_slice());
                proof {
                    let ps = packets_view(batch@);
                    assert(ps.take(i + 1) =~= ps.take(i as int).push(ps[i as int]));
                    lemma_concat_frames_push(ps.take(i as int), ps[i as int]);
                }
            },
            Err(_) => {},
        }
        i = i + 1;
    }
    proof {
        let ps = packets_view(batch@);
        assert(ps.take(n as int) =~= ps);
        lemma_decode_all_concat(ps);
    }
    buffer
}

} // verus!
