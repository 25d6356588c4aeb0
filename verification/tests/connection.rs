use hudsucker::connection::{Connection, ConnectionAction, ConnectionEvent, ConnectionPhase};
use hudsucker::error::Error;

#[test]
fn new_connection_serves() {
    let connection = Connection::new();
    assert_eq!(connection.phase(), ConnectionPhase::Serving);
    assert_eq!(connection.in_flight(), 0);
}

#[test]
fn requests_are_served_and_counted() {
    let mut connection = Connection::new();
    assert_eq!(connection.step(ConnectionEvent::RequestArrived), ConnectionAction::Serve);
    assert_eq!(connection.step(ConnectionEvent::RequestArrived), ConnectionAction::Serve);
    assert_eq!(connection.in_flight(), 2);
    assert_eq!(connection.step(ConnectionEvent::ExchangeFinished), ConnectionAction::Idle);
    assert_eq!(connection.in_flight(), 1);
    assert_eq!(connection.phase(), ConnectionPhase::Serving);
}

#[test]
fn connection_stays_usable_after_an_exchange_ends() {
    let mut connection = Connection::new();
    assert_eq!(connection.step(ConnectionEvent::RequestArrived), ConnectionAction::Serve);
    // the exchange ends, be it with a 502
    assert_eq!(connection.step(ConnectionEvent::ExchangeFinished), ConnectionAction::Idle);
    assert_eq!(connection.phase(), ConnectionPhase::Serving);
    assert_eq!(connection.step(ConnectionEvent::RequestArrived), ConnectionAction::Serve);
    assert_eq!(connection.in_flight(), 1);
}

#[test]
fn spurious_finish_is_ignored() {
    let mut connection = Connection::new();
    assert_eq!(connection.step(ConnectionEvent::ExchangeFinished), ConnectionAction::Idle);
    assert_eq!(connection.in_flight(), 0);
    assert_eq!(connection.phase(), ConnectionPhase::Serving);
}

#[test]
fn cancel_with_nothing_in_flight_exits() {
    let mut connection = Connection::new();
    assert_eq!(connection.step(ConnectionEvent::Cancelled), ConnectionAction::Exit);
    assert_eq!(connection.phase(), ConnectionPhase::Closed);
    assert_eq!(connection.step(ConnectionEvent::RequestArrived), ConnectionAction::Idle);
}

#[test]
fn cancel_lets_exchanges_in_flight_complete() {
    let mut connection = Connection::new();
    connection.step(ConnectionEvent::RequestArrived);
    connection.step(ConnectionEvent::RequestArrived);
    assert_eq!(connection.step(ConnectionEvent::Cancelled), ConnectionAction::Drain);
    assert_eq!(connection.phase(), ConnectionPhase::Draining);
    assert_eq!(connection.in_flight(), 2);
    // a request that still arrives is refused, not served
    assert_eq!(connection.step(ConnectionEvent::RequestArrived), ConnectionAction::Refuse);
    assert_eq!(connection.in_flight(), 2);
    assert_eq!(connection.step(ConnectionEvent::Cancelled), ConnectionAction::Idle);
    assert_eq!(connection.step(ConnectionEvent::ExchangeFinished), ConnectionAction::Idle);
    assert_eq!(connection.phase(), ConnectionPhase::Draining);
    assert_eq!(connection.step(ConnectionEvent::ExchangeFinished), ConnectionAction::Exit);
    assert_eq!(connection.phase(), ConnectionPhase::Closed);
    assert_eq!(connection.in_flight(), 0);
}

#[test]
fn transport_failure_is_reported_and_closes() {
    let mut connection = Connection::new();
    connection.step(ConnectionEvent::RequestArrived);
    assert_eq!(
        connection.step(ConnectionEvent::TransportFailed),
        ConnectionAction::Report(Error::Connection)
    );
    assert_eq!(connection.phase(), ConnectionPhase::Closed);
    assert_eq!(connection.in_flight(), 0);
    assert_eq!(connection.step(ConnectionEvent::ExchangeFinished), ConnectionAction::Idle);
}

#[test]
fn peer_close_exits_also_while_draining() {
    let mut connection = Connection::new();
    connection.step(ConnectionEvent::RequestArrived);
    connection.step(ConnectionEvent::Cancelled);
    assert_eq!(connection.step(ConnectionEvent::PeerClosed), ConnectionAction::Exit);
    assert_eq!(connection.phase(), ConnectionPhase::Closed);

    let mut other = Connection::new();
    assert_eq!(other.step(ConnectionEvent::PeerClosed), ConnectionAction::Exit);
    assert_eq!(other.step(ConnectionEvent::PeerClosed), ConnectionAction::Idle);
}
