//! Server-side message envelopes, network settings and the decisions of
//! the TCP receive loop.

use vstd::prelude::*;
use vstd::bytes::spec_u64_from_le_bytes;
use vstd::bytes::u64_from_le_bytes;
use crate::control::ConnectionId;

verus! {

/// A message received from a connection, as handed to the application.
pub struct NetworkData<T> {
    source: ConnectionId,
    inner: T,
    provider_name: &'static str,
}

impl<T> NetworkData<T> {
    /// The connection the message came from.
    pub closed spec fn spec_source(&self) -> ConnectionId {
        self.source
    }

    /// The message.
    pub closed spec fn spec_inner(&self) -> T {
        self.inner
    }

    /// The name of the provider that received the message.
    pub closed spec fn spec_provider_name(&self) -> Seq<char> {
        self.provider_name@
    }

    /// Data created by hand, with provider name `Unknown`.
    pub fn new(source: &ConnectionId, inner: T) -> (r: Self)
        ensures
            r.spec_source() == *source,
            r.spec_inner() == inner,
            r.spec_provider_name() == "Unknown"@,
    {
        NetworkData { source: *source, inner, provider_name: "Unknown" }
    }

    /// Data received by the named provider.
    pub fn with_provider(source: &ConnectionId, inner: T, provider_name: &'static str) -> (r: Self)
        ensures
            r.spec_source() == *source,
            r.spec_inner() == inner,
            r.spec_provider_name() == provider_name@,
    {
        NetworkData { source: *source, inner, provider_name }
    }

    /// The source connection.
    pub fn source(&self) -> (r: &ConnectionId)
        ensures
            *r == self.spec_source(),
    {
        &self.source
    }

    /// The name of the provider that received the message.
    pub fn provider_name(&self) -> (r: &'static str)
        ensures
            r@ == self.spec_provider_name(),
    {
        self.provider_name
    }

    /// The message itself.
    pub fn inner(&self) -> (r: &T)
        ensures
            *r == self.spec_inner(),
    {
        &self.inner
    }

    /// Takes the message out.
    pub fn into_inner(self) -> (r: T)
        ensures
            r == self.spec_inner(),
    {
        self.inner
    }
}

/// A message to send: to one client, or to all when no client is set.
pub struct OutboundMessage<T> {
    pub name: String,
    pub message: T,
    pub for_client: Option<ConnectionId>,
}

impl<T> OutboundMessage<T> {
    /// A message to broadcast.
    pub fn new(name: String, message: T) -> (r: Self)
        ensures
            r.name == name,
            r.message == message,
            r.for_client is None,
    {
        OutboundMessage { name, message, for_client: None }
    }

    /// The same message, sent to one client only.
    pub fn for_client(self, id: ConnectionId) -> (r: Self)
        ensures
            r.name == self.name,
            r.message == self.message,
            r.for_client == Some(id),
    {
        OutboundMessage { name: self.name, message: self.message, for_client: Some(id) }
    }
}

/// Settings of the network, for servers and clients.
#[derive(Clone, Debug)]
pub struct NetworkSettings {
    /// Largest packet accepted, in bytes; a peer that sends more is
    /// disconnected.
    pub max_packet_length: usize,
    /// Number of outgoing messages queued per connection.
    pub channel_capacity: usize,
    /// Queue depth, in percent, from which a warning is given.
    pub channel_warning_threshold: u8,
}

impl Default for NetworkSettings {
    /// 10 MiB packets, 500 queued messages, a warning at 80 percent.
    fn default() -> (r: Self)
        ensures
            r.max_packet_length == 10 * 1024 * 1024,
            r.channel_capacity == 500,
            r.channel_warning_threshold == 80,
    {
        NetworkSettings { max_packet_length: 10 * 1024 * 1024, channel_capacity: 500, channel_warning_threshold: 80 }
    }
}

/// The TCP transport.
#[derive(Default, Debug)]
pub struct TcpProvider;

impl TcpProvider {
    /// The transport's name.
    pub const PROVIDER_NAME: &'static str = "TCP";

    /// The capacity of each connection's outgoing queue.
    pub fn channel_capacity(settings: &NetworkSettings) -> (r: usize)
        ensures
            r == settings.channel_capacity,
    {
        settings.channel_capacity
    }
}

/// What the receive loop does after reading a frame header.
#[derive(Clone, Copy, PartialEq, Eq, Structural, Debug)]
pub enum RecvStep {
    /// The stream ended (no byte read): stop.
    Closed,
    /// Fewer than 8 header bytes arrived: stop.
    ShortHeader,
    /// The announced packet exceeds the maximum: stop.
    TooLarge,
    /// Read a payload of this many bytes next.
    ReadPayload(usize),
}

/// The step after a header read that returned `read` bytes into `header`.
pub open spec fn spec_recv_step(read: usize, header: Seq<u8>, max_packet_length: usize) -> RecvStep {
    if read == 0 {
        RecvStep::Closed
    } else if read != 8 {
        RecvStep::ShortHeader
    } else if spec_u64_from_le_bytes(header) > max_packet_length {
        RecvStep::TooLarge
    } else {
        RecvStep::ReadPayload(spec_u64_from_le_bytes(header) as usize)
    }
}

/// Decides the next step of the receive loop from the outcome of reading
/// the 8-byte length header.
pub fn recv_step(read: usize, header: &[u8], max_packet_length: usize) -> (r: RecvStep)
    requires
        header@.len() == 8,
    ensures
        r == spec_recv_step(read, header@, max_packet_length),
{
    if read == 0 {
        return RecvStep::Closed;
    }
    if read != 8 {
        return RecvStep::ShortHeader;
    }
    let length = u64_from_le_bytes(header);
    if length > max_packet_length as u64 {
        RecvStep::TooLarge
    } else {
        RecvStep::ReadPayload(length as usize)
    }
}

} // verus!
