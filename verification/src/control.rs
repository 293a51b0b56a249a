//! Connection identities, entity control, sub-connections and server
//! notifications: the types shared by server and client.

use vstd::prelude::*;
use vstd::string::StringExecFns;
use crate::text::decimal_string;
use crate::text::digits;

verus! {

/// A single connection.
#[derive(Clone, Copy, PartialEq, Eq, Structural, Hash, Debug)]
pub struct ConnectionId {
    /// The key of the connection.
    pub id: u32,
}

impl ConnectionId {
    /// The key of the server's own connection.
    pub const SERVER_ID: u32 = 0;

    /// The server's own connection id.
    pub fn server() -> (r: ConnectionId)
        ensures
            r.id == 0,
    {
        ConnectionId { id: Self::SERVER_ID }
    }

    /// Whether this id denotes the server.
    pub fn is_server(&self) -> (r: bool)
        ensures
            r == (self.id == 0),
    {
        self.id == Self::SERVER_ID
    }

    /// The text `Connection with ID=<id>`.
    pub fn describe(&self) -> (r: String)
        ensures
            r@ == "Connection with ID="@ + digits(self.id as nat, 10),
    {
        let mut text = String::from_str("Connection with ID=");
        let number = decimal_string(self.id as u64);
        text.append(number.as_str());
        text
    }
}

/// Request to take or release control of an entity (given by its bits).
#[derive(Clone, Copy, PartialEq, Eq, Structural, Debug)]
pub enum ControlRequest {
    Take(u64),
    Release(u64),
}

/// The kind of a control response.
#[derive(Clone, Debug, PartialEq)]
pub enum ControlResponseKind {
    /// No response yet (the default).
    Unset,
    /// Control was taken.
    Taken,
    /// Control was released.
    Released,
    /// Another client controls the entity.
    AlreadyControlled { by_client: ConnectionId },
    /// The entity is not controlled (when releasing).
    NotControlled,
    /// Another client asks for control of an entity that this client holds.
    ControlRequested { by_client: ConnectionId },
    /// An error occurred.
    Error(String),
}

impl Default for ControlResponseKind {
    fn default() -> (r: Self)
        ensures
            r is Unset,
    {
        ControlResponseKind::Unset
    }
}

/// Response to a control request. The sequence number keeps otherwise
/// identical responses distinct.
#[derive(Clone, Debug, PartialEq)]
pub struct ControlResponse {
    pub sequence: u64,
    pub kind: ControlResponseKind,
}

impl Default for ControlResponse {
    fn default() -> (r: Self)
        ensures
            r.sequence == 0,
            r.kind is Unset,
    {
        ControlResponse { sequence: 0, kind: ControlResponseKind::Unset }
    }
}

/// Which client controls an entity, and which sub-connections share that
/// control. A client id of 0 means that nobody controls the entity.
#[derive(Clone, Debug, PartialEq)]
pub struct EntityControl {
    /// The controlling client.
    pub client_id: ConnectionId,
    /// Related connections (such as other browser tabs) that share control.
    pub sub_connection_ids: Vec<ConnectionId>,
    /// Time of the last activity, as the bit pattern of an `f32` number of
    /// seconds.
    pub last_activity_bits: u32,
}

impl Default for EntityControl {
    fn default() -> (r: Self)
        ensures
            r.client_id.id == 0,
            r.sub_connection_ids@ == Seq::<ConnectionId>::empty(),
            r.last_activity_bits == 0,
    {
        EntityControl {
            client_id: ConnectionId { id: 0 },
            sub_connection_ids: Vec::new(),
            last_activity_bits: 0,
        }
    }
}

/// Whether `ids` holds `id`.
pub fn contains_connection(ids: &Vec<ConnectionId>, id: ConnectionId) -> (r: bool)
    ensures
        r == ids@.contains(id),
{
    let n = ids.len();
    let mut i: usize = 0;
    while i < n
        invariant
            n == ids@.len(),
            i <= n,
            forall|j: int| 0 <= j < i ==> ids@[j] != id,
        decreases n - i,
    {
        if ids[i] == id {
            proof {
                assert(ids@[i as int] == id);
            }
            return true;
        }
        i = i + 1;
    }
    proof {
        if ids@.contains(id) {
            let j = choose|j: int| 0 <= j < ids@.len() && ids@[j] == id;
            assert(ids@[j] != id);
        }
    }
    false
}

impl EntityControl {
    /// Whether a client controls the entity.
    pub open spec fn spec_has_control(&self, connection_id: ConnectionId) -> bool {
        &&& self.client_id.id != 0
        &&& (self.client_id == connection_id || self.sub_connection_ids@.contains(connection_id))
    }

    /// Whether `connection_id` has control, as the controlling client or as
    /// one of its sub-connections. Nobody has control when the client id is 0.
    pub fn has_control(&self, connection_id: ConnectionId) -> (r: bool)
        ensures
            r == self.spec_has_control(connection_id),
    {
        if self.client_id.id == 0 {
            return false;
        }
        self.client_id == connection_id || contains_connection(&self.sub_connection_ids, connection_id)
    }

    /// Whether any client controls the entity.
    pub fn is_controlled(&self) -> (r: bool)
        ensures
            r == (self.client_id.id != 0),
    {
        self.client_id.id != 0
    }
}

/// Who has control: nobody while the client id is 0; otherwise the
/// controlling client and every one of its sub-connections, wherever it
/// stands in the list, and no other connection.
pub proof fn law_control_is_client_or_any_sub_connection(control: EntityControl, c: ConnectionId)
    ensures
        control.client_id.id == 0 ==> !control.spec_has_control(c),
        control.client_id.id != 0 && control.client_id == c ==> control.spec_has_control(c),
        control.client_id.id != 0 ==> forall|i: int|
            0 <= i < control.sub_connection_ids@.len() && #[trigger] control.sub_connection_ids@[i] == c
                ==> control.spec_has_control(c),
        control.spec_has_control(c) ==> c == control.client_id || exists|i: int|
            0 <= i < control.sub_connection_ids@.len() && #[trigger] control.sub_connection_ids@[i] == c,
{
    if control.spec_has_control(c) && c != control.client_id {
        assert(control.sub_connection_ids@.contains(c));
        let i = choose|i: int| 0 <= i < control.sub_connection_ids@.len() && control.sub_connection_ids@[i] == c;
        assert(control.sub_connection_ids@[i] == c);
    }
    assert forall|i: int|
        0 <= i < control.sub_connection_ids@.len() && #[trigger] control.sub_connection_ids@[i] == c implies
        control.sub_connection_ids@.contains(c) by {}
}

/// Adds a sub-connection to a parent's list unless it is already there.
/// Returns whether it was added.
pub fn add_sub_connection(ids: &mut Vec<ConnectionId>, id: ConnectionId) -> (added: bool)
    ensures
        added == !old(ids)@.contains(id),
        added ==> final(ids)@ == old(ids)@.push(id),
        !added ==> final(ids)@ == old(ids)@,
        final(ids)@.contains(id),
{
    if contains_connection(ids, id) {
        false
    } else {
        ids.push(id);
        proof {
            assert(final(ids)@[final(ids)@.len() - 1] == id);
        }
        true
    }
}

/// Request to associate this connection with a parent connection, so that
/// it shares the parent's control permissions.
#[derive(Clone, Copy, PartialEq, Eq, Structural, Debug)]
pub struct AssociateSubConnection {
    pub parent_connection_id: ConnectionId,
}

/// Response to a sub-connection association request.
#[derive(Clone, Debug, PartialEq)]
pub struct AssociateSubConnectionResponse {
    pub success: bool,
    pub error: Option<String>,
    pub parent_connection_id: ConnectionId,
}

/// Severity of a server notification.
#[derive(Clone, Copy, PartialEq, Eq, Structural, Debug)]
pub enum NotificationLevel {
    Info,
    Success,
    Warning,
    Error,
}

impl Default for NotificationLevel {
    fn default() -> (r: Self)
        ensures
            r == NotificationLevel::Info,
    {
        NotificationLevel::Info
    }
}

/// The source of notification sequence numbers. It starts at 1, so that 0
/// can mean "unset".
pub struct NotificationSequence {
    pub next: u64,
}

impl NotificationSequence {
    /// A fresh source, whose first number is 1.
    pub fn new() -> (r: Self)
        ensures
            r.next == 1,
    {
        NotificationSequence { next: 1 }
    }
}

/// The counter after handing out `n`: one more, wrapping to 0 at the end of
/// the `u64` range.
pub open spec fn next_sequence(n: u64) -> u64 {
    if n == u64::MAX {
        0
    } else {
        (n + 1) as u64
    }
}

/// The number handed out by the `k`-th call (counting from 0) on a fresh
/// counter.
pub open spec fn sequence_after(k: nat) -> u64
    decreases k,
{
    if k == 0 {
        1
    } else {
        next_sequence(sequence_after((k - 1) as nat))
    }
}

/// A fresh counter hands out 1, 2, 3, ...: the `k`-th number is `k + 1`,
/// so no number is 0 (the "unset" default), and later notifications get
/// larger numbers, until `u64::MAX` numbers have been handed out.
pub proof fn law_notification_numbers_increase(i: nat, j: nat)
    requires
        i < j < u64::MAX,
    ensures
        sequence_after(i) == i + 1,
        sequence_after(j) == j + 1,
        1 <= sequence_after(i) < sequence_after(j),
{
    lemma_sequence_after(i);
    lemma_sequence_after(j);
}

proof fn lemma_sequence_after(k: nat)
    requires
        k < u64::MAX,
    ensures
        sequence_after(k) == k + 1,
    decreases k,
{
    if k > 0 {
        lemma_sequence_after((k - 1) as nat);
    }
}

/// Takes the next sequence number: the current value, after which the
/// counter moves on by one (wrapping at the end of the `u64` range).
pub fn next_notification_sequence(counter: &mut NotificationSequence) -> (r: u64)
    ensures
        r == old(counter).next,
        final(counter).next == next_sequence(old(counter).next),
        old(counter).next < u64::MAX ==> r < final(counter).next,
{
    let current = counter.next;
    counter.next = current.wrapping_add(1);
    current
}

/// A notification from the server, shown to the user as a toast or in a
/// console.
#[derive(Clone, Debug)]
pub struct ServerNotification {
    /// Unique, increasing sequence number for deduplication.
    pub sequence: u64,
    /// The text.
    pub message: String,
    /// The severity.
    pub level: NotificationLevel,
    /// Optional context, such as the message type that was rejected.
    pub context: Option<String>,
}

impl Default for ServerNotification {
    fn default() -> (r: Self)
        ensures
            r.sequence == 0,
            r.message@ == Seq::<char>::empty(),
            r.level == NotificationLevel::Info,
            r.context is None,
    {
        ServerNotification {
            sequence: 0,
            message: String::new(),
            level: NotificationLevel::Info,
            context: None,
        }
    }
}

impl ServerNotification {
    /// A notification of the given level with the next sequence number.
    pub fn with_level(counter: &mut NotificationSequence, message: String, level: NotificationLevel) -> (r: Self)
        ensures
            r.sequence == old(counter).next,
            final(counter).next == next_sequence(old(counter).next),
            r.message@ == message@,
            r.level == level,
            r.context is None,
    {
        ServerNotification {
            sequence: next_notification_sequence(counter),
            message,
            level,
            context: None,
        }
    }

    /// An informational notification.
    pub fn info(counter: &mut NotificationSequence, message: String) -> (r: Self)
        ensures
            r.sequence == old(counter).next,
            final(counter).next == next_sequence(old(counter).next),
            r.message@ == message@,
            r.level == NotificationLevel::Info,
            r.context is None,
    {
        Self::with_level(counter, message, NotificationLevel::Info)
    }

    /// A success notification.
    pub fn success(counter: &mut NotificationSequence, message: String) -> (r: Self)
        ensures
            r.sequence == old(counter).next,
            final(counter).next == next_sequence(old(counter).next),
            r.message@ == message@,
            r.level == NotificationLevel::Success,
            r.context is None,
    {
        Self::with_level(counter, message, NotificationLevel::Success)
    }

    /// A warning notification.
    pub fn warning(counter: &mut NotificationSequence, message: String) -> (r: Self)
        ensures
            r.sequence == old(counter).next,
            final(counter).next == next_sequence(old(counter).next),
            r.message@ == message@,
            r.level == NotificationLevel::Warning,
            r.context is None,
    {
        Self::with_level(counter, message, NotificationLevel::Warning)
    }

    /// An error notification.
    pub fn error(counter: &mut NotificationSequence, message: String) -> (r: Self)
        ensures
            r.sequence == old(counter).next,
            final(counter).next == next_sequence(old(counter).next),
            r.message@ == message@,
            r.level == NotificationLevel::Error,
            r.context is None,
    {
        Self::with_level(counter, message, NotificationLevel::Error)
    }

    /// The same notification with the given context.
    pub fn with_context(self, context: String) -> (r: Self)
        ensures
            r.sequence == self.sequence,
            r.message == self.message,
            r.level == self.level,
            r.context == Some(context),
    {
        let mut n = self;
        n.context = Some(context);
        n
    }
}

} // verus!
