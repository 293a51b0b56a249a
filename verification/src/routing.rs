//! Client-side routing of packets: which handler a packet goes to, how
//! request responses are split, which packet goes out for a send, and the
//! latest payload of each broadcast message type.

use vstd::prelude::*;
use vstd::hash_map::StringHashMap;
use vstd::string::StrSliceExecFns;
use vstd::wrapping::u64_specs::wrapping_add;
use vstd::wrapping::u64_specs::wrapping_mul;
use crate::bytes::copy_suffix;
use crate::frame::NetworkPacket;
use crate::frame::PacketView;
use crate::frame::decode_packet;
use crate::frame::bincode_decode_u64;
use crate::frame::bincode_u64_decoding;
use crate::frame::packet_from_bytes;
use crate::names::short_name_of;
use crate::names::spec_short_name;

verus! {

/// `pat` occurs in `s` at position `i`.
pub open spec fn occurs_at(s: Seq<char>, pat: Seq<char>, i: int) -> bool {
    0 <= i && i + pat.len() <= s.len() && s.subrange(i, i + pat.len()) == pat
}

/// `pat` occurs somewhere in `s`.
pub open spec fn spec_contains(s: Seq<char>, pat: Seq<char>) -> bool {
    exists|i: int| occurs_at(s, pat, i)
}

/// Whether `pat` occurs in `s`.
pub fn str_contains(s: &str, pat: &str) -> (r: bool)
    ensures
        r == spec_contains(s@, pat@),
{
    let n = s.unicode_len();
    let m = pat.unicode_len();
    if m > n {
        proof {
            assert forall|i: int| !occurs_at(s@, pat@, i) by {}
        }
        return false;
    }
    let mut i: usize = 0;
    while i <= n - m
        invariant
            n == s@.len(),
            m == pat@.len(),
            m <= n,
            i <= n - m + 1,
            forall|j: int| 0 <= j < i ==> !occurs_at(s@, pat@, j),
        decreases n - m + 1 - i,
    {
        let mut k: usize = 0;
        let mut same = true;
        while k < m
            invariant
                n == s@.len(),
                m == pat@.len(),
                i + m <= n,
                k <= m,
                same == (forall|t: int| 0 <= t < k ==> s@[i + t] == pat@[t]),
            decreases m - k,
        {
            if s.get_char(i + k) != pat.get_char(k) {
                same = false;
            }
            k = k + 1;
        }
        if same {
            proof {
                assert(s@.subrange(i as int, i + m) =~= pat@);
                assert(occurs_at(s@, pat@, i as int));
            }
            return true;
        }
        proof {
            assert(!occurs_at(s@, pat@, i as int)) by {
                if s@.subrange(i as int, i + m) == pat@ {
                    assert forall|t: int| 0 <= t < m implies s@[i + t] == pat@[t] by {
                        assert(s@.subrange(i as int, i + m)[t] == s@[i + t]);
                    }
                }
            }
        }
        i = i + 1;
    }
    proof {
        assert forall|j: int| !occurs_at(s@, pat@, j) by {
            if 0 <= j && j + m <= n {
                assert(j < i);
            }
        }
    }
    false
}

/// Where an incoming packet goes.
#[derive(Clone, Copy, PartialEq, Eq, Structural, Debug)]
pub enum PacketRoute {
    /// A message of the synchronization protocol.
    SyncServer,
    /// The response to a request.
    Response,
    /// Any other message, stored by the short name of its type.
    Message,
}

/// The route of a packet with the given type path.
pub open spec fn spec_route(path: Seq<char>) -> PacketRoute {
    if spec_contains(path, "SyncServerMessage"@) {
        PacketRoute::SyncServer
    } else if spec_contains(path, "ResponseInternal<"@) {
        PacketRoute::Response
    } else {
        PacketRoute::Message
    }
}

/// Chooses the handler of a packet by its type path: synchronization
/// messages first, then request responses, then any other message.
pub fn route_packet(type_path: &str) -> (r: PacketRoute)
    ensures
        r == spec_route(type_path@),
{
    if str_contains(type_path, "SyncServerMessage") {
        PacketRoute::SyncServer
    } else if str_contains(type_path, "ResponseInternal<") {
        PacketRoute::Response
    } else {
        PacketRoute::Message
    }
}

/// Splits the payload of a response into the response id at its start and
/// the response message after it; `None` when no id can be read.
pub fn split_response(data: &[u8]) -> (r: Option<(u64, Vec<u8>)>)
    ensures
        match bincode_u64_decoding(data@) {
            Some((id, n)) => r matches Some((rid, rest)) && rid == id && rest@ == data@.skip(n as int),
            None => r is None,
        },
{
    match bincode_decode_u64(data) {
        Ok((id, read)) => Some((id, copy_suffix(data, read))),
        Err(_) => None,
    }
}

/// The packet that goes out for bytes handed to the client's send
/// function: bytes that already decode to a packet whose type path is a
/// full path (non-empty, holding `::`) go out as that packet; any other
/// bytes are a synchronization message, wrapped in a packet with the given
/// type path and schema hash 0.
pub open spec fn spec_outgoing(data: Seq<u8>, sync_path: Seq<char>) -> PacketView {
    match packet_from_bytes(data) {
        Some(p) => if p.type_path.len() > 0 && spec_contains(p.type_path, "::"@) {
            p
        } else {
            PacketView { type_path: sync_path, schema_hash: 0, data }
        },
        None => PacketView { type_path: sync_path, schema_hash: 0, data },
    }
}

/// Chooses the packet to send for the given bytes (see [`spec_outgoing`]).
pub fn outgoing_packet(data: &[u8], sync_message_path: &str) -> (r: NetworkPacket)
    ensures
        r@ == spec_outgoing(data@, sync_message_path@),
{
    match decode_packet(data) {
        Ok(p) => {
            if !p.type_path.as_str().is_empty() && str_contains(p.type_path.as_str(), "::") {
                return p;
            }
        },
        Err(_) => {},
    }
    let bytes = copy_suffix(data, 0);
    proof {
        assert(bytes@ =~= data@);
    }
    NetworkPacket { type_path: sync_message_path.to_owned(), schema_hash: 0, data: bytes }
}

/// The change-detection hash of a message payload: starting from 0, each
/// byte is added and the sum multiplied by 31, with wrap-around.
pub open spec fn spec_payload_hash(s: Seq<u8>) -> u64
    decreases s.len(),
{
    if s.len() == 0 {
        0
    } else {
        wrapping_mul(wrapping_add(spec_payload_hash(s.drop_last()), s.last() as u64), 31)
    }
}

/// Computes the change-detection hash of a payload.
pub fn payload_hash(bytes: &[u8]) -> (h: u64)
    ensures
        h == spec_payload_hash(bytes@),
{
    let n = bytes.len();
    let mut acc: u64 = 0;
    let mut i: usize = 0;
    while i < n
        invariant
            n == bytes@.len(),
            i <= n,
            acc == spec_payload_hash(bytes@.take(i as int)),
        decreases n - i,
    {
        proof {
            assert(bytes@.take(i + 1).drop_last() =~= bytes@.take(i as int));
        }
        acc = acc.wrapping_add(bytes[i] as u64).wrapping_mul(31);
        i = i + 1;
    }
    proof {
        assert(bytes@.take(n as int) =~= bytes@);
    }
    acc
}

proof fn lemma_times_31_injective(x: u64, y: u64)
    requires
        x != y,
    ensures
        wrapping_mul(x, 31) != wrapping_mul(y, 31),
{
    // 31 has an inverse modulo 2^64, so multiplying by it loses nothing.
    assert(((x as nat * 31) % 0x1_0000_0000_0000_0000) as u64 == (x * 31) as u64) by (bit_vector);
    assert(((y as nat * 31) % 0x1_0000_0000_0000_0000) as u64 == (y * 31) as u64) by (bit_vector);
    assert(x != y ==> (x * 31) as u64 != (y * 31) as u64) by (bit_vector);
}

/// The change-detection hash takes in every byte, in order: the hash of a
/// payload with one more byte is the previous hash plus that byte, times
/// 31 (wrapping), whatever the length; the empty payload hashes to 0. So
/// two payloads that agree up to their last byte and differ in it get
/// different hashes, however long they are.
pub proof fn law_payload_hash_takes_every_byte(s: Seq<u8>, b: u8, c: u8)
    ensures
        spec_payload_hash(Seq::<u8>::empty()) == 0,
        spec_payload_hash(s.push(b)) == wrapping_mul(wrapping_add(spec_payload_hash(s), b as u64), 31),
        b != c ==> spec_payload_hash(s.push(b)) != spec_payload_hash(s.push(c)),
{
    assert(s.push(b).drop_last() =~= s);
    assert(s.push(c).drop_last() =~= s);
    if b != c {
        let h = spec_payload_hash(s);
        assert(wrapping_add(h, b as u64) != wrapping_add(h, c as u64));
        lemma_times_31_injective(wrapping_add(h, b as u64), wrapping_add(h, c as u64));
    }
}

/// Whether a newly stored payload must be decoded for a view: not when it
/// is empty, and not when its hash equals that of the payload last
/// processed. Returns the hash to remember when it must.
pub fn payload_update(bytes: &[u8], last_hash: u64) -> (r: Option<u64>)
    ensures
        r == (if bytes@.len() == 0 || spec_payload_hash(bytes@) == last_hash {
            None
        } else {
            Some(spec_payload_hash(bytes@))
        }),
{
    if bytes.len() == 0 {
        return None;
    }
    let h = payload_hash(bytes);
    if h == last_hash {
        None
    } else {
        Some(h)
    }
}

/// The latest payload received for each broadcast message type, by the
/// short name of the type.
pub struct IncomingMessages {
    messages: StringHashMap<Vec<u8>>,
}

impl View for IncomingMessages {
    type V = Map<Seq<char>, Seq<u8>>;

    closed spec fn view(&self) -> Map<Seq<char>, Seq<u8>> {
        self.messages@.map_values(|v: Vec<u8>| v@)
    }
}

impl IncomingMessages {
    /// Nothing received yet.
    pub fn new() -> (r: Self)
        ensures
            r@ == Map::<Seq<char>, Seq<u8>>::empty(),
    {
        let r = IncomingMessages { messages: StringHashMap::new() };
        proof {
            assert(r@ =~= Map::<Seq<char>, Seq<u8>>::empty());
        }
        r
    }

    /// Stores a payload under the short name of its type path, replacing
    /// the previous payload of that type.
    pub fn record(&mut self, type_path: &str, data: Vec<u8>)
        ensures
            final(self)@ == old(self)@.insert(spec_short_name(type_path@), data@),
    {
        let short = short_name_of(type_path);
        self.messages.insert(short.to_owned(), data);
        proof {
            assert(final(self)@ =~= old(self)@.insert(spec_short_name(type_path@), data@));
        }
    }

    /// The latest payload of a message type, by short name.
    pub fn latest(&self, short_name: &str) -> (r: Option<&Vec<u8>>)
        ensures
            match r {
                Some(v) => self@.contains_key(short_name@) && self@[short_name@] == v@,
                None => !self@.contains_key(short_name@),
            },
    {
        self.messages.get(short_name)
    }
}

} // verus!
