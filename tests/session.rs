use e66_link::session::{contains_bytes, find_endpoint, find_named, Action, Event, Phase, Session, SessionError};

const ENDPOINT: &str = "be940001-7333-be46-b7ae-689e71722bd5";
const ENDPOINT_VALUE: u128 = 0xbe940001_7333_be46_b7ae_689e71722bd5;
const OTHER_VALUE: u128 = 0x0000180f_0000_1000_8000_00805f9b34fb;

fn e66_session() -> Session {
    Session::new(b"E66".to_vec(), ENDPOINT, ENDPOINT, &vec![2, 3, 71, 80]).unwrap()
}

fn names() -> Vec<Option<Vec<u8>>> {
    vec![None, Some(b"Mi Band".to_vec()), Some(b"E66-AB12".to_vec()), Some(b"E66".to_vec())]
}

/// What a mock transport saw, in order.
#[derive(Debug, PartialEq)]
enum Call {
    Connect(usize),
    Discover,
    Subscribe(usize),
    SubscribeAcked,
    Write(usize, Vec<u8>),
    Drain,
    Stop(Option<SessionError>),
}

/// Drives a session against a transport that succeeds at every step,
/// recording each call and acknowledgment.
fn run_against_mock(s: &mut Session) -> Vec<Call> {
    let mut calls = Vec::new();
    let mut action = s.step(Event::Peripherals(names()));
    loop {
        let event = match action {
            Action::Connect(i) => {
                calls.push(Call::Connect(i));
                Event::ConnectDone(true)
            }
            Action::DiscoverEndpoints => {
                calls.push(Call::Discover);
                Event::Endpoints(vec![OTHER_VALUE, ENDPOINT_VALUE])
            }
            Action::Subscribe(i) => {
                calls.push(Call::Subscribe(i));
                calls.push(Call::SubscribeAcked);
                Event::SubscribeDone(true)
            }
            Action::Write(i) => {
                calls.push(Call::Write(i, s.frame.clone()));
                Event::WriteDone(true)
            }
            Action::Drain => {
                calls.push(Call::Drain);
                Event::Drained
            }
            Action::Stop(e) => {
                calls.push(Call::Stop(e));
                return calls;
            }
            Action::Wait => panic!("session stalled in {:?}", s.phase),
        };
        action = s.step(event);
    }
}

#[test]
fn new_session_parses_endpoint_identifiers() {
    let s = e66_session();
    assert_eq!(s.phase, Phase::Discovering);
    assert_eq!(s.notify_id, ENDPOINT_VALUE);
    assert_eq!(s.command_id, ENDPOINT_VALUE);
    assert_eq!(s.name_filter, b"E66".to_vec());
    assert_eq!(s.frame, e66_link::frame::format(&vec![2, 3, 71, 80]));
}

#[test]
fn new_session_rejects_malformed_identifier() {
    assert!(Session::new(b"E66".to_vec(), "not-a-uuid", ENDPOINT, &vec![2, 3]).is_none());
    assert!(Session::new(b"E66".to_vec(), ENDPOINT, "", &vec![2, 3]).is_none());
}

#[test]
fn full_handshake_writes_only_after_subscription_ack() {
    let mut s = e66_session();
    let calls = run_against_mock(&mut s);
    assert_eq!(
        calls,
        vec![
            Call::Connect(2),
            Call::Discover,
            Call::Subscribe(1),
            Call::SubscribeAcked,
            Call::Write(1, vec![2, 3, 8, 0, 71, 80, 0xEF, 0x20]),
            Call::Drain,
            Call::Stop(None),
        ]
    );
    let ack = calls.iter().position(|c| *c == Call::SubscribeAcked).unwrap();
    let write = calls.iter().position(|c| matches!(c, Call::Write(..))).unwrap();
    assert!(ack < write);
    assert_eq!(s.phase, Phase::Closed);
}

#[test]
fn write_is_not_requested_while_subscription_pending() {
    let mut s = e66_session();
    s.step(Event::Peripherals(names()));
    s.step(Event::ConnectDone(true));
    assert_eq!(s.step(Event::Endpoints(vec![ENDPOINT_VALUE])), Action::Subscribe(0));
    assert_eq!(s.step(Event::WriteDone(true)), Action::Wait);
    assert_eq!(s.step(Event::Drained), Action::Wait);
    assert_eq!(s.phase, Phase::Subscribing { command: 0 });
    assert_eq!(s.step(Event::SubscribeDone(true)), Action::Write(0));
}

#[test]
fn missing_adapter_is_fatal() {
    let mut s = e66_session();
    let e = SessionError::AdapterUnavailable;
    assert_eq!(s.step(Event::NoAdapter), Action::Stop(Some(e)));
    assert_eq!(s.phase, Phase::Failed(e));
}

#[test]
fn no_matching_peripheral_is_fatal() {
    let mut s = e66_session();
    let e = SessionError::PeripheralNotFound;
    let seen = vec![None, Some(b"Mi Band".to_vec()), Some(b"e66".to_vec())];
    assert_eq!(s.step(Event::Peripherals(seen)), Action::Stop(Some(e)));
    assert_eq!(s.phase, Phase::Failed(e));
}

#[test]
fn failed_connection_is_fatal() {
    let mut s = e66_session();
    s.step(Event::Peripherals(names()));
    let e = SessionError::ConnectionFailed;
    assert_eq!(s.step(Event::ConnectDone(false)), Action::Stop(Some(e)));
    assert_eq!(s.phase, Phase::Failed(e));
}

#[test]
fn missing_endpoint_is_fatal() {
    let mut s = e66_session();
    s.step(Event::Peripherals(names()));
    s.step(Event::ConnectDone(true));
    let e = SessionError::EndpointNotFound;
    assert_eq!(s.step(Event::Endpoints(vec![OTHER_VALUE])), Action::Stop(Some(e)));
    assert_eq!(s.phase, Phase::Failed(e));
}

#[test]
fn distinct_notify_and_command_endpoints() {
    let other = "0000180f-0000-1000-8000-00805f9b34fb";
    let mut s = Session::new(b"E66".to_vec(), ENDPOINT, other, &vec![2, 3]).unwrap();
    assert_eq!(s.command_id, OTHER_VALUE);
    s.step(Event::Peripherals(names()));
    s.step(Event::ConnectDone(true));
    assert_eq!(s.step(Event::Endpoints(vec![ENDPOINT_VALUE, 7, OTHER_VALUE])), Action::Subscribe(0));
    assert_eq!(s.step(Event::SubscribeDone(true)), Action::Write(2));
}

#[test]
fn failed_subscription_is_fatal() {
    let mut s = e66_session();
    s.step(Event::Peripherals(names()));
    s.step(Event::ConnectDone(true));
    s.step(Event::Endpoints(vec![ENDPOINT_VALUE]));
    let e = SessionError::SubscriptionFailed;
    assert_eq!(s.step(Event::SubscribeDone(false)), Action::Stop(Some(e)));
    assert_eq!(s.phase, Phase::Failed(e));
}

#[test]
fn failed_write_is_fatal() {
    let mut s = e66_session();
    s.step(Event::Peripherals(names()));
    s.step(Event::ConnectDone(true));
    s.step(Event::Endpoints(vec![ENDPOINT_VALUE]));
    s.step(Event::SubscribeDone(true));
    let e = SessionError::WriteFailed;
    assert_eq!(s.step(Event::WriteDone(false)), Action::Stop(Some(e)));
    assert_eq!(s.phase, Phase::Failed(e));
}

#[test]
fn disconnect_while_active_is_fatal() {
    let mut s = e66_session();
    s.step(Event::Peripherals(names()));
    s.step(Event::ConnectDone(true));
    s.step(Event::Endpoints(vec![ENDPOINT_VALUE]));
    s.step(Event::SubscribeDone(true));
    assert_eq!(s.step(Event::WriteDone(true)), Action::Drain);
    let e = SessionError::TransportDisconnected;
    assert_eq!(s.step(Event::Disconnected), Action::Stop(Some(e)));
    assert_eq!(s.phase, Phase::Failed(e));
}

#[test]
fn disconnect_before_connecting_is_ignored() {
    let mut s = e66_session();
    assert_eq!(s.step(Event::Disconnected), Action::Wait);
    assert_eq!(s.phase, Phase::Discovering);
}

#[test]
fn finished_session_ignores_further_events() {
    let mut s = e66_session();
    run_against_mock(&mut s);
    assert_eq!(s.step(Event::Disconnected), Action::Wait);
    assert_eq!(s.step(Event::NoAdapter), Action::Wait);
    assert_eq!(s.phase, Phase::Closed);
}

#[test]
fn byte_substring_search() {
    assert!(contains_bytes(&b"E66-AB12".to_vec(), &b"E66".to_vec()));
    assert!(contains_bytes(&b"My E66".to_vec(), &b"E66".to_vec()));
    assert!(contains_bytes(&b"E66".to_vec(), &b"E66".to_vec()));
    assert!(contains_bytes(&b"anything".to_vec(), &vec![]));
    assert!(contains_bytes(&vec![], &vec![]));
    assert!(!contains_bytes(&b"E6".to_vec(), &b"E66".to_vec()));
    assert!(!contains_bytes(&b"E6E6".to_vec(), &b"E66".to_vec()));
}

#[test]
fn first_matching_peripheral_is_chosen() {
    assert_eq!(find_named(&names(), &b"E66".to_vec()), Some(2));
    assert_eq!(find_named(&names(), &vec![]), Some(1));
    assert_eq!(find_named(&vec![None, None], &vec![]), None);
    assert_eq!(find_named(&vec![], &b"E66".to_vec()), None);
}

#[test]
fn first_matching_endpoint_is_chosen() {
    assert_eq!(find_endpoint(&vec![1, 5, 5], 5), Some(1));
    assert_eq!(find_endpoint(&vec![1, 2], 5), None);
    assert_eq!(find_endpoint(&vec![], 5), None);
}
