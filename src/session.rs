//! The one-shot session handshake as a state machine: discover the
//! peripheral, connect, find the endpoints, subscribe, send one framed
//! command, then drain notifications. The caller performs each requested
//! action against the transport and reports back what happened.

use vstd::prelude::*;
use std::str::FromStr;
use crate::frame::frame_of;

verus! {

/// Why a session ended early. Every transport failure is fatal.
#[derive(Clone, Copy, Debug, PartialEq, Eq, Structural)]
pub enum SessionError {
    AdapterUnavailable,
    PeripheralNotFound,
    ConnectionFailed,
    EndpointNotFound,
    SubscriptionFailed,
    WriteFailed,
    TransportDisconnected,
}

/// Where the handshake stands.
#[derive(Clone, Copy, Debug, PartialEq, Eq, Structural)]
pub enum Phase {
    /// Waiting for the outcome of a scan.
    Discovering,
    /// A connection to the chosen peripheral was requested.
    Connecting,
    /// Connected; endpoint discovery was requested.
    Connected,
    /// A subscription was requested; `command` indexes the command endpoint.
    Subscribing { command: usize },
    /// Subscription acknowledged; the command frame was handed to the transport.
    Subscribed,
    /// The command write was acknowledged; notifications are being consumed.
    Active,
    /// The session ran to its end.
    Closed,
    /// The session stopped on an error.
    Failed(SessionError),
}

/// What the transport reports back to the session.
#[derive(Debug)]
pub enum Event {
    /// No wireless adapter is available.
    NoAdapter,
    /// A scan finished; the advertised name of each visible peripheral.
    Peripherals(Vec<Option<Vec<u8>>>),
    /// The outcome of a connection attempt.
    ConnectDone(bool),
    /// The identifiers of the peripheral's endpoints, in discovery order.
    Endpoints(Vec<u128>),
    /// The outcome of the subscription request.
    SubscribeDone(bool),
    /// The outcome of the acknowledged command write.
    WriteDone(bool),
    /// The bounded wait for in-flight notifications is over.
    Drained,
    /// The link to the peripheral dropped.
    Disconnected,
}

/// What the session asks the caller to do next.
#[derive(Clone, Copy, Debug, PartialEq, Eq, Structural)]
pub enum Action {
    /// Connect to the peripheral at this index of the scan result.
    Connect(usize),
    /// Enumerate the connected peripheral's endpoints.
    DiscoverEndpoints,
    /// Subscribe to notifications from the endpoint at this index.
    Subscribe(usize),
    /// Write the session's frame, with acknowledgment, to the endpoint at
    /// this index.
    Write(usize),
    /// Let in-flight notifications arrive, then stop consuming them.
    Drain,
    /// Disconnect and finish, successfully or with the error.
    Stop(Option<SessionError>),
    /// The event did not apply to the current phase: nothing to do.
    Wait,
}

/// Whether `pat` occurs as a contiguous run in `hay`.
pub open spec fn contains(hay: Seq<u8>, pat: Seq<u8>) -> bool {
    exists|k: int|
        0 <= k && k + pat.len() <= hay.len() && #[trigger] hay.subrange(k, k + pat.len()) == pat
}

/// Whether an advertised name is present and contains `filter`.
pub open spec fn name_matches(name: Option<Vec<u8>>, filter: Seq<u8>) -> bool {
    match name {
        Some(n) => contains(n@, filter),
        None => false,
    }
}

/// The first index at or after `start` whose name matches `filter`.
pub open spec fn first_match_from(names: Seq<Option<Vec<u8>>>, filter: Seq<u8>, start: int) -> Option<int>
    decreases names.len() - start,
{
    if start < 0 || start >= names.len() {
        None
    } else if name_matches(names[start], filter) {
        Some(start)
    } else {
        first_match_from(names, filter, start + 1)
    }
}

/// The first index at or after `start` that holds `id`.
pub open spec fn first_index_from(ids: Seq<u128>, id: u128, start: int) -> Option<int>
    decreases ids.len() - start,
{
    if start < 0 || start >= ids.len() {
        None
    } else if ids[start] == id {
        Some(start)
    } else {
        first_index_from(ids, id, start + 1)
    }
}

/// How a session in `phase`, looking for a peripheral whose name contains
/// `filter` and for endpoints `notify` and `command`, answers `event`: its
/// next phase and the action it requests.
pub open spec fn transition(phase: Phase, filter: Seq<u8>, notify: u128, command: u128, event: Event) -> (Phase, Action) {
    let fail = |e: SessionError| (Phase::Failed(e), Action::Stop(Some(e)));
    match (phase, event) {
        (Phase::Discovering, Event::NoAdapter) => fail(SessionError::AdapterUnavailable),
        (Phase::Discovering, Event::Peripherals(names)) => match first_match_from(names@, filter, 0) {
            Some(i) => (Phase::Connecting, Action::Connect(i as usize)),
            None => fail(SessionError::PeripheralNotFound),
        },
        (Phase::Connecting, Event::ConnectDone(ok)) => if ok {
            (Phase::Connected, Action::DiscoverEndpoints)
        } else {
            fail(SessionError::ConnectionFailed)
        },
        (Phase::Connected, Event::Endpoints(ids)) => match (
            first_index_from(ids@, notify, 0),
            first_index_from(ids@, command, 0),
        ) {
            (Some(n), Some(c)) => (Phase::Subscribing { command: c as usize }, Action::Subscribe(n as usize)),
            _ => fail(SessionError::EndpointNotFound),
        },
        (Phase::Subscribing { command: c }, Event::SubscribeDone(ok)) => if ok {
            (Phase::Subscribed, Action::Write(c))
        } else {
            fail(SessionError::SubscriptionFailed)
        },
        (Phase::Subscribed, Event::WriteDone(ok)) => if ok {
            (Phase::Active, Action::Drain)
        } else {
            fail(SessionError::WriteFailed)
        },
        (Phase::Active, Event::Drained) => (Phase::Closed, Action::Stop(None)),
        (Phase::Connected, Event::Disconnected)
        | (Phase::Subscribing { .. }, Event::Disconnected)
        | (Phase::Subscribed, Event::Disconnected)
        | (Phase::Active, Event::Disconnected) => fail(SessionError::TransportDisconnected),
        _ => (phase, Action::Wait),
    }
}

/// The name of what uuid's parser makes of a text: the identifier's 128-bit
/// value, or `None` when the text is not a UUID.
pub uninterp spec fn uuid_value_of(s: Seq<char>) -> Option<u128>;

/// Relies on `uuid::Uuid::from_str` (which is `Uuid::parse_str`): the result
/// depends on the text alone. A parsed identifier is handed on as
/// `Uuid::as_u128`, its bytes read big-endian.
#[verifier::external_body]
fn parse_uuid(text: &str) -> (r: Option<u128>)
    ensures
        r == uuid_value_of(text@),
{
    match uuid::Uuid::from_str(text) {
        Ok(u) => Some(u.as_u128()),
        Err(_) => None,
    }
}

/// One handshake with one peripheral.
pub struct Session {
    pub phase: Phase,
    /// Bytes that the peripheral's advertised name must contain.
    pub name_filter: Vec<u8>,
    /// Identifier of the endpoint that notifications come from.
    pub notify_id: u128,
    /// Identifier of the endpoint that takes commands.
    pub command_id: u128,
    /// The framed command that the session sends once subscribed.
    pub frame: Vec<u8>,
}

/// Whether `pat` occurs in `hay` starting at `k`.
fn occurs_at(hay: &Vec<u8>, pat: &Vec<u8>, k: usize) -> (r: bool)
    requires
        k + pat@.len() <= hay@.len(),
    ensures
        r == (hay@.subrange(k as int, k + pat@.len()) == pat@),
{
    let m = pat.len();
    let n = hay.len();
    for j in 0..m
        invariant
            m == pat@.len(),
            n == hay@.len(),
            k + m <= hay@.len(),
            forall|jj: int| 0 <= jj < j ==> hay@[k + jj] == pat@[jj],
    {
        if hay[k + j] != pat[j] {
            assert(hay@.subrange(k as int, k + m)[j as int] != pat@[j as int]);
            return false;
        }
    }
    assert(hay@.subrange(k as int, k + m) =~= pat@);
    true
}

/// Whether `pat` occurs as a contiguous run in `hay`.
pub fn contains_bytes(hay: &Vec<u8>, pat: &Vec<u8>) -> (r: bool)
    ensures
        r == contains(hay@, pat@),
{
    let n = hay.len();
    let m = pat.len();
    if m > n {
        return false;
    }
    let last: usize = n - m;
    let mut k: usize = 0;
    loop
        invariant
            n == hay@.len(),
            m == pat@.len(),
            last == n - m,
            k <= last,
            forall|k2: int| 0 <= k2 < k ==> #[trigger] hay@.subrange(k2, k2 + m) != pat@,
        decreases last - k,
    {
        if occurs_at(hay, pat, k) {
            return true;
        }
        if k == last {
            assert forall|k2: int| 0 <= k2 && k2 + pat@.len() <= hay@.len() implies
                #[trigger] hay@.subrange(k2, k2 + pat@.len()) != pat@ by {
                assert(k2 <= k);
            }
            return false;
        }
        k = k + 1;
    }
}

/// The index of the first peripheral whose advertised name contains `filter`.
pub fn find_named(names: &Vec<Option<Vec<u8>>>, filter: &Vec<u8>) -> (r: Option<usize>)
    ensures
        r is None <==> first_match_from(names@, filter@, 0) is None,
        r matches Some(i) ==> first_match_from(names@, filter@, 0) == Some(i as int),
{
    let n = names.len();
    for i in 0..n
        invariant
            n == names@.len(),
            first_match_from(names@, filter@, 0) == first_match_from(names@, filter@, i as int),
    {
        let hit = match &names[i] {
            Some(name) => contains_bytes(name, filter),
            None => false,
        };
        if hit {
            return Some(i);
        }
    }
    None
}

/// The index of the first endpoint whose identifier is `id`.
pub fn find_endpoint(ids: &Vec<u128>, id: u128) -> (r: Option<usize>)
    ensures
        r is None <==> first_index_from(ids@, id, 0) is None,
        r matches Some(i) ==> first_index_from(ids@, id, 0) == Some(i as int),
{
    let n = ids.len();
    for i in 0..n
        invariant
            n == ids@.len(),
            first_index_from(ids@, id, 0) == first_index_from(ids@, id, i as int),
    {
        if ids[i] == id {
            return Some(i);
        }
    }
    None
}

impl Session {
    /// A session that looks for a peripheral whose name contains
    /// `name_filter`, subscribes to the endpoint named by `notify_endpoint`
    /// and sends `command`, framed, to the endpoint named by
    /// `command_endpoint`. `None` when either name is not a UUID.
    pub fn new(name_filter: Vec<u8>, notify_endpoint: &str, command_endpoint: &str, command: &Vec<u8>) -> (r: Option<Session>)
        requires
            command@.len() >= 2,
            command@.len() + 4 <= usize::MAX,
        ensures
            r is Some <==> (uuid_value_of(notify_endpoint@) is Some
                && uuid_value_of(command_endpoint@) is Some),
            r matches Some(s) ==> {
                &&& s.phase == Phase::Discovering
                &&& s.name_filter@ == name_filter@
                &&& uuid_value_of(notify_endpoint@) == Some(s.notify_id)
                &&& uuid_value_of(command_endpoint@) == Some(s.command_id)
                &&& s.frame@ == frame_of(command@)
            },
    {
        let notify_id = match parse_uuid(notify_endpoint) {
            Some(v) => v,
            None => return None,
        };
        let command_id = match parse_uuid(command_endpoint) {
            Some(v) => v,
            None => return None,
        };
        let frame = crate::frame::format(command);
        Some(Session { phase: Phase::Discovering, name_filter, notify_id, command_id, frame })
    }

    /// Answers one transport event: moves to the next phase and returns the
    /// action to perform, as `transition` describes. Nothing else changes.
    pub fn step(&mut self, event: Event) -> (a: Action)
        ensures
            (final(self).phase, a) == transition(
                old(self).phase,
                old(self).name_filter@,
                old(self).notify_id,
                old(self).command_id,
                event,
            ),
            final(self).name_filter@ == old(self).name_filter@,
            final(self).notify_id == old(self).notify_id,
            final(self).command_id == old(self).command_id,
            final(self).frame@ == old(self).frame@,
    {
        let (phase, action) = match (self.phase, event) {
            (Phase::Discovering, Event::NoAdapter) => Self::fail(SessionError::AdapterUnavailable),
            (Phase::Discovering, Event::Peripherals(names)) => match find_named(&names, &self.name_filter) {
                Some(i) => (Phase::Connecting, Action::Connect(i)),
                None => Self::fail(SessionError::PeripheralNotFound),
            },
            (Phase::Connecting, Event::ConnectDone(ok)) => if ok {
                (Phase::Connected, Action::DiscoverEndpoints)
            } else {
                Self::fail(SessionError::ConnectionFailed)
            },
            (Phase::Connected, Event::Endpoints(ids)) => match (
                find_endpoint(&ids, self.notify_id),
                find_endpoint(&ids, self.command_id),
            ) {
                (Some(n), Some(c)) => (Phase::Subscribing { command: c }, Action::Subscribe(n)),
                _ => Self::fail(SessionError::EndpointNotFound),
            },
            (Phase::Subscribing { command: c }, Event::SubscribeDone(ok)) => if ok {
                (Phase::Subscribed, Action::Write(c))
            } else {
                Self::fail(SessionError::SubscriptionFailed)
            },
            (Phase::Subscribed, Event::WriteDone(ok)) => if ok {
                (Phase::Active, Action::Drain)
            } else {
                Self::fail(SessionError::WriteFailed)
            },
            (Phase::Active, Event::Drained) => (Phase::Closed, Action::Stop(None)),
            (Phase::Connected, Event::Disconnected)
            | (Phase::Subscribing { .. }, Event::Disconnected)
            | (Phase::Subscribed, Event::Disconnected)
            | (Phase::Active, Event::Disconnected) => Self::fail(SessionError::TransportDisconnected),
            (p, _) => (p, Action::Wait),
        };
        self.phase = phase;
        action
    }

    fn fail(e: SessionError) -> (r: (Phase, Action))
        ensures
            r == (Phase::Failed(e), Action::Stop(Some(e))),
    {
        (Phase::Failed(e), Action::Stop(Some(e)))
    }
}

/// The phase of a fresh session after it has answered `events` in order.
pub open spec fn phase_after(filter: Seq<u8>, notify: u128, command: u128, events: Seq<Event>) -> Phase
    decreases events.len(),
{
    if events.len() == 0 {
        Phase::Discovering
    } else {
        transition(
            phase_after(filter, notify, command, events.drop_last()),
            filter,
            notify,
            command,
            events.last(),
        ).0
    }
}

/// The action that a fresh session requests in answer to `events[i]`.
pub open spec fn action_at(filter: Seq<u8>, notify: u128, command: u128, events: Seq<Event>, i: int) -> Action {
    transition(phase_after(filter, notify, command, events.take(i)), filter, notify, command, events[i]).1
}

proof fn lemma_subscribing_follows_subscribe(
    filter: Seq<u8>,
    notify: u128,
    command: u128,
    events: Seq<Event>,
    i: int,
)
    requires
        0 <= i <= events.len(),
        phase_after(filter, notify, command, events.take(i)) is Subscribing,
    ensures
        exists|k: int| 0 <= k < i && #[trigger] action_at(filter, notify, command, events, k) is Subscribe,
    decreases i,
{
    if i == 0 {
        assert(events.take(0).len() == 0);
    } else {
        assert(events.take(i).drop_last() =~= events.take(i - 1));
        assert(events.take(i).last() == events[i - 1]);
        let prev = phase_after(filter, notify, command, events.take(i - 1));
        if prev is Subscribing {
            lemma_subscribing_follows_subscribe(filter, notify, command, events, i - 1);
        } else {
            assert(action_at(filter, notify, command, events, i - 1) is Subscribe);
        }
    }
}

/// A session never asks for the command write before a subscription has
/// been acknowledged: a write is only requested in answer to a successful
/// subscription event, received while subscribing, and a subscription was
/// requested at some earlier step.
pub proof fn lemma_write_only_after_subscription(
    filter: Seq<u8>,
    notify: u128,
    command: u128,
    events: Seq<Event>,
    i: int,
)
    requires
        0 <= i < events.len(),
        action_at(filter, notify, command, events, i) is Write,
    ensures
        events[i] == Event::SubscribeDone(true),
        phase_after(filter, notify, command, events.take(i)) is Subscribing,
        exists|k: int| 0 <= k < i && #[trigger] action_at(filter, notify, command, events, k) is Subscribe,
{
    lemma_subscribing_follows_subscribe(filter, notify, command, events, i);
}

} // verus!
