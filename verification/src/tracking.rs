//! Client-side bookkeeping of mutation and request round trips: request ids,
//! per-request state, and what a view shows of a request.

use vstd::prelude::*;
use vstd::hash_map::HashMapWithView;
use vstd::string::StringExecFns;

verus! {

broadcast use vstd::std_specs::hash::group_hash_axioms;

/// Source of request ids: 1, 2, 3, ... One source is shared by mutations
/// and requests of a client, so their ids never collide.
pub struct RequestIds {
    pub next: u64,
}

impl RequestIds {
    /// A source whose first id is 1.
    pub fn new() -> (r: Self)
        ensures
            r.next == 1,
    {
        RequestIds { next: 1 }
    }

    /// Takes the next id.
    pub fn allocate(&mut self) -> (id: u64)
        requires
            old(self).next < u64::MAX,
        ensures
            id == old(self).next,
            final(self).next == old(self).next + 1,
    {
        let id = self.next;
        self.next = id + 1;
        id
    }
}

/// Client-side state of one mutation request. The status is the protocol's
/// mutation status; `None` while the server has not answered.
#[derive(Clone, Debug)]
pub struct MutationState<S> {
    pub request_id: u64,
    pub status: Option<S>,
    pub message: Option<String>,
}

impl<S> MutationState<S> {
    /// The state of a mutation that was sent and not yet answered.
    pub fn new_pending(request_id: u64) -> (r: Self)
        ensures
            r == (MutationState::<S> { request_id, status: None, message: None }),
    {
        MutationState { request_id, status: None, message: None }
    }
}

/// Mutation states by request id.
#[verifier::reject_recursive_types(S)]
pub struct MutationTracker<S> {
    states: HashMapWithView<u64, MutationState<S>>,
}

impl<S> View for MutationTracker<S> {
    type V = Map<u64, MutationState<S>>;

    closed spec fn view(&self) -> Map<u64, MutationState<S>> {
        self.states@
    }
}

impl<S> MutationTracker<S> {
    /// No mutation tracked.
    pub fn new() -> (r: Self)
        ensures
            r@ == Map::<u64, MutationState<S>>::empty(),
    {
        MutationTracker { states: HashMapWithView::new() }
    }

    /// Tracks a mutation that was just sent.
    pub fn insert_pending(&mut self, request_id: u64)
        ensures
            final(self)@ == old(self)@.insert(request_id, MutationState::<S> { request_id, status: None, message: None }),
    {
        self.states.insert(request_id, MutationState::new_pending(request_id));
    }

    /// Records the final state of a mutation (such as a failure to
    /// serialize it), whether or not it was tracked before.
    pub fn record(&mut self, request_id: u64, status: S, message: Option<String>)
        ensures
            final(self)@ == old(self)@.insert(
                request_id,
                MutationState { request_id, status: Some(status), message },
            ),
    {
        self.states.insert(request_id, MutationState { request_id, status: Some(status), message });
    }

    /// Applies a server response: a response with a request id sets that
    /// mutation's status and message, tracking it if it was unknown; a
    /// response without one changes nothing.
    pub fn record_response(&mut self, request_id: Option<u64>, status: S, message: Option<String>)
        ensures
            match request_id {
                Some(id) => final(self)@ == old(self)@.insert(
                    id,
                    MutationState { request_id: id, status: Some(status), message },
                ),
                None => final(self)@ == old(self)@,
            },
    {
        if let Some(id) = request_id {
            self.record(id, status, message);
        }
    }

    /// Applies a server response only to a mutation that is tracked; other
    /// responses change nothing.
    pub fn update_tracked(&mut self, request_id: Option<u64>, status: S, message: Option<String>)
        ensures
            match request_id {
                Some(id) => if old(self)@.contains_key(id) {
                    final(self)@ == old(self)@.insert(
                        id,
                        MutationState { request_id: old(self)@[id].request_id, status: Some(status), message },
                    )
                } else {
                    final(self)@ == old(self)@
                },
                None => final(self)@ == old(self)@,
            },
    {
        if let Some(id) = request_id {
            match self.states.remove(&id) {
                Some(state) => {
                    self.states.insert(
                        id,
                        MutationState { request_id: state.request_id, status: Some(status), message },
                    );
                    proof {
                        assert(final(self)@ =~= old(self)@.insert(
                            id,
                            MutationState { request_id: old(self)@[id].request_id, status: Some(status), message },
                        ));
                    }
                },
                None => {
                    proof {
                        assert(final(self)@ =~= old(self)@);
                    }
                },
            }
        }
    }

    /// The state of one mutation.
    pub fn state(&self, request_id: u64) -> (r: Option<&MutationState<S>>)
        ensures
            match r {
                Some(s) => self@.contains_key(request_id) && *s == self@[request_id],
                None => !self@.contains_key(request_id),
            },
    {
        self.states.get(&request_id)
    }
}

/// Status of a request.
#[derive(Clone, Debug, PartialEq)]
pub enum RequestStatus {
    /// Sent, waiting for the response.
    Pending,
    /// The response arrived.
    Success,
    /// The request failed.
    Error(String),
}

/// State of one request/response round trip.
#[derive(Clone, Debug)]
pub struct RequestState {
    pub request_id: u64,
    /// Type name of the expected response.
    pub response_type: String,
    pub status: RequestStatus,
    /// The raw response, once received.
    pub response_bytes: Option<Vec<u8>>,
}

/// Request states by request id.
pub struct RequestTracker {
    requests: HashMapWithView<u64, RequestState>,
}

impl View for RequestTracker {
    type V = Map<u64, RequestState>;

    closed spec fn view(&self) -> Map<u64, RequestState> {
        self.requests@
    }
}

/// What a view shows of the request it last sent.
#[derive(Clone, Debug, PartialEq)]
pub enum RequestPhase {
    /// No request sent yet.
    Idle,
    /// The request id is not tracked.
    NotFound,
    /// Waiting for the response.
    Loading,
    /// The response arrived.
    Succeeded,
    /// The request failed with this message.
    Failed(String),
}

/// The phase shown for a request id, given the tracked requests.
pub open spec fn spec_request_phase(requests: Map<u64, RequestState>, current: Option<u64>) -> RequestPhase {
    match current {
        None => RequestPhase::Idle,
        Some(id) => if !requests.contains_key(id) {
            RequestPhase::NotFound
        } else {
            match requests[id].status {
                RequestStatus::Pending => RequestPhase::Loading,
                RequestStatus::Success => RequestPhase::Succeeded,
                RequestStatus::Error(e) => RequestPhase::Failed(e),
            }
        },
    }
}

impl RequestTracker {
    /// No request tracked.
    pub fn new() -> (r: Self)
        ensures
            r@ == Map::<u64, RequestState>::empty(),
    {
        RequestTracker { requests: HashMapWithView::new() }
    }

    /// Tracks a request that is about to be sent.
    pub fn insert_pending(&mut self, request_id: u64, response_type: String)
        ensures
            final(self)@ == old(self)@.insert(
                request_id,
                RequestState { request_id, response_type, status: RequestStatus::Pending, response_bytes: None },
            ),
    {
        self.requests.insert(
            request_id,
            RequestState { request_id, response_type, status: RequestStatus::Pending, response_bytes: None },
        );
    }

    /// Marks a tracked request as failed; an unknown id changes nothing.
    pub fn mark_error(&mut self, request_id: u64, message: String)
        ensures
            old(self)@.contains_key(request_id) ==> final(self)@ == old(self)@.insert(
                request_id,
                RequestState { status: RequestStatus::Error(message), ..old(self)@[request_id] },
            ),
            !old(self)@.contains_key(request_id) ==> final(self)@ == old(self)@,
    {
        match self.requests.remove(&request_id) {
            Some(state) => {
                self.requests.insert(request_id, RequestState { status: RequestStatus::Error(message), ..state });
                proof {
                    assert(final(self)@ =~= old(self)@.insert(
                        request_id,
                        RequestState { status: RequestStatus::Error(message), ..old(self)@[request_id] },
                    ));
                }
            },
            None => {
                proof {
                    assert(final(self)@ =~= old(self)@);
                }
            },
        }
    }

    /// Records the response to a tracked request; a response to an unknown
    /// id changes nothing.
    pub fn handle_response(&mut self, response_id: u64, response_bytes: Vec<u8>)
        ensures
            old(self)@.contains_key(response_id) ==> final(self)@ == old(self)@.insert(
                response_id,
                RequestState {
                    status: RequestStatus::Success,
                    response_bytes: Some(response_bytes),
                    ..old(self)@[response_id]
                },
            ),
            !old(self)@.contains_key(response_id) ==> final(self)@ == old(self)@,
    {
        match self.requests.remove(&response_id) {
            Some(state) => {
                self.requests.insert(
                    response_id,
                    RequestState { status: RequestStatus::Success, response_bytes: Some(response_bytes), ..state },
                );
                proof {
                    assert(final(self)@ =~= old(self)@.insert(
                        response_id,
                        RequestState {
                            status: RequestStatus::Success,
                            response_bytes: Some(response_bytes),
                            ..old(self)@[response_id]
                        },
                    ));
                }
            },
            None => {
                proof {
                    assert(final(self)@ =~= old(self)@);
                }
            },
        }
    }

    /// The state of one request.
    pub fn state(&self, request_id: u64) -> (r: Option<&RequestState>)
        ensures
            match r {
                Some(s) => self@.contains_key(request_id) && *s == self@[request_id],
                None => !self@.contains_key(request_id),
            },
    {
        self.requests.get(&request_id)
    }

    /// The raw response of a request that succeeded; `None` while it is
    /// pending, when it failed, or when it is unknown.
    pub fn response_bytes(&self, request_id: u64) -> (r: Option<&Vec<u8>>)
        ensures
            match r {
                Some(b) => self@.contains_key(request_id) && self@[request_id].status == RequestStatus::Success
                    && self@[request_id].response_bytes == Some(*b),
                None => !self@.contains_key(request_id) || self@[request_id].status != RequestStatus::Success
                    || self@[request_id].response_bytes is None,
            },
    {
        match self.requests.get(&request_id) {
            Some(state) => match state.status {
                RequestStatus::Success => match &state.response_bytes {
                    Some(b) => Some(b),
                    None => None,
                },
                _ => None,
            },
            None => None,
        }
    }

    /// What a view shows of the request it last sent (`None` when it sent
    /// none).
    pub fn phase(&self, current: Option<u64>) -> (r: RequestPhase)
        ensures
            r == spec_request_phase(self@, current),
    {
        match current {
            None => RequestPhase::Idle,
            Some(id) => match self.requests.get(&id) {
                None => RequestPhase::NotFound,
                Some(state) => match &state.status {
                    RequestStatus::Pending => RequestPhase::Loading,
                    RequestStatus::Success => RequestPhase::Succeeded,
                    RequestStatus::Error(e) => RequestPhase::Failed(e.clone()),
                },
            },
        }
    }
}

/// State of a request/response cycle as a view shows it.
#[derive(Clone, Debug)]
pub struct UseRequestState<T> {
    /// Whether the request is in flight.
    pub is_loading: bool,
    /// The response, when it arrived and decoded.
    pub data: Option<T>,
    /// The error message, when it failed.
    pub error: Option<String>,
}

impl<T> UseRequestState<T> {
    /// The state shown for a phase; `data` is the decoded response, used
    /// when the request succeeded.
    pub fn from_phase(phase: RequestPhase, data: Option<T>) -> (r: Self)
        ensures
            r.is_loading == (phase == RequestPhase::Loading),
            r.data == (if phase == RequestPhase::Succeeded { data } else { None }),
            r.error == (match phase {
                RequestPhase::NotFound => Some(r.error->0),
                RequestPhase::Failed(e) => Some(e),
                _ => None,
            }),
            phase == RequestPhase::NotFound ==> r.error->0@ == "Request not found"@,
    {
        match phase {
            RequestPhase::Idle => UseRequestState { is_loading: false, data: None, error: None },
            RequestPhase::NotFound => UseRequestState {
                is_loading: false,
                data: None,
                error: Some(String::from_str("Request not found")),
            },
            RequestPhase::Loading => UseRequestState { is_loading: true, data: None, error: None },
            RequestPhase::Succeeded => UseRequestState { is_loading: false, data, error: None },
            RequestPhase::Failed(e) => UseRequestState { is_loading: false, data: None, error: Some(e) },
        }
    }

    /// Whether the request is in flight.
    pub fn is_loading(&self) -> (r: bool)
        ensures
            r == self.is_loading,
    {
        self.is_loading
    }

    /// Whether nothing has happened yet.
    pub fn is_idle(&self) -> (r: bool)
        ensures
            r == (!self.is_loading && self.data is None && self.error is None),
    {
        !self.is_loading && self.data.is_none() && self.error.is_none()
    }

    /// Whether a response is available.
    pub fn is_success(&self) -> (r: bool)
        ensures
            r == self.data is Some,
    {
        self.data.is_some()
    }

    /// Whether the request failed.
    pub fn is_error(&self) -> (r: bool)
        ensures
            r == self.error is Some,
    {
        self.error.is_some()
    }
}

/// A response that arrives for a tracked request is what a read of that
/// request's response gives, and the request then shows as succeeded.
pub proof fn law_response_read_back(requests: Map<u64, RequestState>, id: u64, bytes: Vec<u8>)
    requires
        requests.contains_key(id),
    ensures
        ({
            let after = requests.insert(
                id,
                RequestState { status: RequestStatus::Success, response_bytes: Some(bytes), ..requests[id] },
            );
            &&& after[id].response_bytes == Some(bytes)
            &&& spec_request_phase(after, Some(id)) == RequestPhase::Succeeded
        }),
{
}

} // verus!
