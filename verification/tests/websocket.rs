use hudsucker::handler::{Passthrough, WebSocketHandler};
use hudsucker::websocket::{
    Bridge, BridgeAction, BridgeEvent, BridgeState, Direction, Frame, Opcode, Relay, Side,
};

fn text(payload: &[u8]) -> Frame {
    Frame { opcode: Opcode::Text, payload: payload.to_vec() }
}

/// Drops every client frame that starts with `drop`, and marks every frame
/// of the origin.
struct Filter;

impl WebSocketHandler for Filter {
    fn on_client_frame(&mut self, frame: Frame) -> Option<Frame> {
        if frame.payload.starts_with(b"drop") {
            None
        } else {
            Some(frame)
        }
    }

    fn on_server_frame(&mut self, mut frame: Frame) -> Option<Frame> {
        frame.payload.push(b'!');
        Some(frame)
    }
}

fn open() -> BridgeState {
    BridgeState { client_to_origin: Relay::Open, origin_to_client: Relay::Open }
}

#[test]
fn new_bridge_is_open_both_ways() {
    let bridge = Bridge::new();
    assert_eq!(bridge.state(), open());
    assert!(!bridge.is_terminated());
}

#[test]
fn directions_and_sides() {
    assert_eq!(Direction::ClientToOrigin.opposite(), Direction::OriginToClient);
    assert_eq!(Direction::OriginToClient.opposite(), Direction::ClientToOrigin);
    assert_eq!(Direction::ClientToOrigin.source(), Side::Client);
    assert_eq!(Direction::OriginToClient.source(), Side::Origin);
}

#[test]
fn protocol_error_frame_carries_1002() {
    let frame = Frame::protocol_error();
    assert_eq!(frame.opcode, Opcode::Close);
    assert_eq!(frame.payload, vec![0x03, 0xea]);
    assert_eq!(u16::from_be_bytes([frame.payload[0], frame.payload[1]]), 1002);
}

#[test]
fn pass_through_relays_every_frame() {
    let mut bridge = Bridge::new();
    assert_eq!(
        bridge.relay(&mut Passthrough, Direction::ClientToOrigin, text(b"hello")),
        BridgeAction::Write { direction: Direction::ClientToOrigin, frame: text(b"hello") }
    );
    assert_eq!(
        bridge.relay(&mut Passthrough, Direction::OriginToClient, text(b"world")),
        BridgeAction::Write { direction: Direction::OriginToClient, frame: text(b"world") }
    );
    assert_eq!(bridge.state(), open());
}

#[test]
fn dropped_frame_never_reaches_the_origin() {
    let mut bridge = Bridge::new();
    let mut to_origin: Vec<Frame> = Vec::new();
    let mut to_client: Vec<Frame> = Vec::new();
    let reads = [
        (Direction::ClientToOrigin, text(b"one")),
        (Direction::ClientToOrigin, text(b"drop me")),
        (Direction::OriginToClient, text(b"reply")),
        (Direction::ClientToOrigin, text(b"dropped too")),
        (Direction::ClientToOrigin, text(b"two")),
        (Direction::OriginToClient, text(b"drop")),
    ];
    for (direction, frame) in reads {
        match bridge.relay(&mut Filter, direction, frame) {
            BridgeAction::Write { direction: Direction::ClientToOrigin, frame } => to_origin.push(frame),
            BridgeAction::Write { direction: Direction::OriginToClient, frame } => to_client.push(frame),
            BridgeAction::Discard => {},
            other => panic!("unexpected: {:?}", other),
        }
    }
    assert_eq!(to_origin, vec![text(b"one"), text(b"two")]);
    // the other direction is untouched by the drops
    assert_eq!(to_client, vec![text(b"reply!"), text(b"drop!")]);
    assert_eq!(bridge.state(), open());
}

#[test]
fn dropped_frame_changes_nothing() {
    let mut bridge = Bridge::new();
    assert_eq!(
        bridge.step(BridgeEvent::Frame { direction: Direction::ClientToOrigin, kept: None }),
        BridgeAction::Discard
    );
    assert_eq!(
        bridge.step(BridgeEvent::Frame { direction: Direction::OriginToClient, kept: None }),
        BridgeAction::Discard
    );
    assert_eq!(bridge.state(), open());
}

#[test]
fn end_of_one_direction_closes_the_other() {
    let mut bridge = Bridge::new();
    assert_eq!(
        bridge.step(BridgeEvent::Ended(Direction::ClientToOrigin)),
        BridgeAction::Shut(Direction::OriginToClient)
    );
    assert_eq!(
        bridge.state(),
        BridgeState { client_to_origin: Relay::Ended, origin_to_client: Relay::Closing }
    );
    assert!(!bridge.is_terminated());
    // frames of either direction are no longer written
    assert_eq!(
        bridge.step(BridgeEvent::Frame { direction: Direction::OriginToClient, kept: Some(text(b"late")) }),
        BridgeAction::Discard
    );
    assert_eq!(
        bridge.step(BridgeEvent::Frame { direction: Direction::ClientToOrigin, kept: Some(text(b"late")) }),
        BridgeAction::Discard
    );
    assert_eq!(bridge.step(BridgeEvent::Ended(Direction::ClientToOrigin)), BridgeAction::Ignore);
    assert_eq!(bridge.step(BridgeEvent::Ended(Direction::OriginToClient)), BridgeAction::Ignore);
    assert!(bridge.is_terminated());
}

#[test]
fn violation_closes_only_its_own_relay() {
    let mut bridge = Bridge::new();
    assert_eq!(
        bridge.step(BridgeEvent::Violation(Direction::OriginToClient)),
        BridgeAction::Reject { side: Side::Origin, frame: Frame::protocol_error() }
    );
    assert_eq!(
        bridge.state(),
        BridgeState { client_to_origin: Relay::Open, origin_to_client: Relay::Ended }
    );
    // the other relay still relays
    assert_eq!(
        bridge.step(BridgeEvent::Frame { direction: Direction::ClientToOrigin, kept: Some(text(b"on")) }),
        BridgeAction::Write { direction: Direction::ClientToOrigin, frame: text(b"on") }
    );
    assert_eq!(bridge.step(BridgeEvent::Violation(Direction::OriginToClient)), BridgeAction::Ignore);
    assert_eq!(
        bridge.step(BridgeEvent::Violation(Direction::ClientToOrigin)),
        BridgeAction::Reject { side: Side::Client, frame: Frame::protocol_error() }
    );
    assert!(bridge.is_terminated());
}

#[test]
fn cancellation_ends_both_relays_at_once() {
    let mut bridge = Bridge::new();
    assert_eq!(bridge.step(BridgeEvent::Cancelled), BridgeAction::ShutBoth);
    assert!(bridge.is_terminated());
    assert_eq!(
        bridge.state(),
        BridgeState { client_to_origin: Relay::Ended, origin_to_client: Relay::Ended }
    );
    assert_eq!(bridge.step(BridgeEvent::Cancelled), BridgeAction::Ignore);
    assert_eq!(
        bridge.relay(&mut Passthrough, Direction::ClientToOrigin, text(b"late")),
        BridgeAction::Discard
    );

    let mut half = Bridge::new();
    half.step(BridgeEvent::Ended(Direction::OriginToClient));
    assert_eq!(half.step(BridgeEvent::Cancelled), BridgeAction::ShutBoth);
    assert!(half.is_terminated());
}
