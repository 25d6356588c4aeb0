//! The WebSocket bridge: frames relayed between client and origin.

use crate::handler::WebSocketHandler;
use vstd::prelude::*;

verus! {

/// The kind of a WebSocket frame.
#[derive(Clone, Copy, Debug, PartialEq, Eq, Structural)]
pub enum Opcode {
    Continuation,
    Text,
    Binary,
    Close,
    Ping,
    Pong,
}

/// One WebSocket frame.
#[derive(Clone, Debug, PartialEq, Eq)]
pub struct Frame {
    pub opcode: Opcode,
    pub payload: Vec<u8>,
}

/// What a frame holds.
pub struct FrameView {
    pub opcode: Opcode,
    pub payload: Seq<u8>,
}

impl View for Frame {
    type V = FrameView;

    open spec fn view(&self) -> FrameView {
        FrameView { opcode: self.opcode, payload: self.payload@ }
    }
}

impl FrameView {
    /// The close frame that answers a protocol violation: status code 1002,
    /// no reason.
    pub open spec fn protocol_error() -> FrameView {
        FrameView { opcode: Opcode::Close, payload: seq![0x03u8, 0xeau8] }
    }
}

impl Frame {
    /// The close frame that answers a protocol violation: status code 1002,
    /// no reason.
    pub fn protocol_error() -> (frame: Frame)
        ensures
            frame@ == FrameView::protocol_error(),
    {
        let mut payload: Vec<u8> = Vec::new();
        payload.push(0x03u8);
        payload.push(0xeau8);
        let frame = Frame { opcode: Opcode::Close, payload };
        assert(frame@.payload =~= FrameView::protocol_error().payload);
        frame
    }
}

/// One end of a bridge.
#[derive(Clone, Copy, Debug, PartialEq, Eq, Structural)]
pub enum Side {
    Client,
    Origin,
}

/// One of the two ways that frames travel through a bridge.
#[derive(Clone, Copy, Debug, PartialEq, Eq, Structural)]
pub enum Direction {
    ClientToOrigin,
    OriginToClient,
}

impl Direction {
    /// The other direction.
    pub open spec fn spec_opposite(self) -> Direction {
        match self {
            Direction::ClientToOrigin => Direction::OriginToClient,
            Direction::OriginToClient => Direction::ClientToOrigin,
        }
    }

    /// The other direction.
    #[verifier::when_used_as_spec(spec_opposite)]
    pub fn opposite(self) -> (d: Direction)
        ensures
            d == self.spec_opposite(),
    {
        match self {
            Direction::ClientToOrigin => Direction::OriginToClient,
            Direction::OriginToClient => Direction::ClientToOrigin,
        }
    }

    /// The end whose frames travel in this direction.
    pub open spec fn spec_source(self) -> Side {
        match self {
            Direction::ClientToOrigin => Side::Client,
            Direction::OriginToClient => Side::Origin,
        }
    }

    /// The end whose frames travel in this direction.
    #[verifier::when_used_as_spec(spec_source)]
    pub fn source(self) -> (side: Side)
        ensures
            side == self.spec_source(),
    {
        match self {
            Direction::ClientToOrigin => Side::Client,
            Direction::OriginToClient => Side::Origin,
        }
    }
}

/// Where the relay of one direction stands.
#[derive(Clone, Copy, Debug, PartialEq, Eq, Structural)]
pub enum Relay {
    /// Frames are relayed.
    Open,
    /// The other direction has ended and this one was asked to close.
    Closing,
    /// The relay has ended.
    Ended,
}

/// Where the two relays of a bridge stand.
#[derive(Clone, Copy, Debug, PartialEq, Eq, Structural)]
pub struct BridgeState {
    pub client_to_origin: Relay,
    pub origin_to_client: Relay,
}

impl BridgeState {
    /// Where the relay of `direction` stands.
    pub open spec fn relay(self, direction: Direction) -> Relay {
        match direction {
            Direction::ClientToOrigin => self.client_to_origin,
            Direction::OriginToClient => self.origin_to_client,
        }
    }

    /// This state with the relay of `direction` at `relay`.
    pub open spec fn with(self, direction: Direction, relay: Relay) -> BridgeState {
        match direction {
            Direction::ClientToOrigin => BridgeState { client_to_origin: relay, ..self },
            Direction::OriginToClient => BridgeState { origin_to_client: relay, ..self },
        }
    }

    /// Whether the bridge is over: both relays have ended.
    pub open spec fn terminated(self) -> bool {
        self.client_to_origin is Ended && self.origin_to_client is Ended
    }

    /// The state of a bridge whose two handshakes have just succeeded.
    pub open spec fn open() -> BridgeState {
        BridgeState { client_to_origin: Relay::Open, origin_to_client: Relay::Open }
    }

    /// The state of a bridge that is over.
    pub open spec fn ended() -> BridgeState {
        BridgeState { client_to_origin: Relay::Ended, origin_to_client: Relay::Ended }
    }
}

/// What happened outside since the last step of a bridge.
#[derive(Clone, Debug, PartialEq, Eq)]
pub enum BridgeEvent {
    /// A frame was read in `direction`, and the handler returned `kept` for it.
    Frame { direction: Direction, kept: Option<Frame> },
    /// The stream that is read in this direction ended, by a close frame or by an error.
    Ended(Direction),
    /// What was read in this direction is no well-formed frame.
    Violation(Direction),
    /// Shutdown was signalled.
    Cancelled,
}

/// What an event of a bridge holds.
pub enum BridgeEventView {
    Frame { direction: Direction, kept: Option<FrameView> },
    Ended(Direction),
    Violation(Direction),
    Cancelled,
}

/// What an optional frame holds.
pub open spec fn kept_view(kept: Option<Frame>) -> Option<FrameView> {
    match kept {
        Some(frame) => Some(frame@),
        None => None,
    }
}

impl View for BridgeEvent {
    type V = BridgeEventView;

    open spec fn view(&self) -> BridgeEventView {
        match self {
            BridgeEvent::Frame { direction, kept } => BridgeEventView::Frame {
                direction: *direction,
                kept: kept_view(*kept),
            },
            BridgeEvent::Ended(direction) => BridgeEventView::Ended(*direction),
            BridgeEvent::Violation(direction) => BridgeEventView::Violation(*direction),
            BridgeEvent::Cancelled => BridgeEventView::Cancelled,
        }
    }
}

/// What the caller does next in a bridge.
#[derive(Clone, Debug, PartialEq, Eq)]
pub enum BridgeAction {
    /// Write the frame to the stream that `direction` leads to.
    Write { direction: Direction, frame: Frame },
    /// Nothing: the frame was dropped, or its relay is no longer open.
    Discard,
    /// Close the relay of this direction: the other one has ended.
    Shut(Direction),
    /// Send the close frame to this end, whose frame was malformed, and stop reading from it.
    Reject { side: Side, frame: Frame },
    /// Close both relays at once.
    ShutBoth,
    /// Nothing: the event changes nothing.
    Ignore,
}

/// What an action of a bridge holds.
pub enum BridgeActionView {
    Write { direction: Direction, frame: FrameView },
    Discard,
    Shut(Direction),
    Reject { side: Side, frame: FrameView },
    ShutBoth,
    Ignore,
}

impl View for BridgeAction {
    type V = BridgeActionView;

    open spec fn view(&self) -> BridgeActionView {
        match self {
            BridgeAction::Write { direction, frame } => BridgeActionView::Write {
                direction: *direction,
                frame: frame@,
            },
            BridgeAction::Discard => BridgeActionView::Discard,
            BridgeAction::Shut(direction) => BridgeActionView::Shut(*direction),
            BridgeAction::Reject { side, frame } => BridgeActionView::Reject { side: *side, frame: frame@ },
            BridgeAction::ShutBoth => BridgeActionView::ShutBoth,
            BridgeAction::Ignore => BridgeActionView::Ignore,
        }
    }
}

/// The transition of a bridge: the state after `event`, and what the caller does.
pub open spec fn next(s: BridgeState, event: BridgeEventView) -> (BridgeState, BridgeActionView) {
    match event {
        BridgeEventView::Frame { direction, kept } => match kept {
            Some(frame) => if s.relay(direction) is Open {
                (s, BridgeActionView::Write { direction, frame })
            } else {
                (s, BridgeActionView::Discard)
            },
            None => (s, BridgeActionView::Discard),
        },
        BridgeEventView::Ended(direction) => if s.relay(direction) is Ended {
            (s, BridgeActionView::Ignore)
        } else if s.relay(direction.spec_opposite()) is Open {
            (
                s.with(direction, Relay::Ended).with(direction.spec_opposite(), Relay::Closing),
                BridgeActionView::Shut(direction.spec_opposite()),
            )
        } else {
            (s.with(direction, Relay::Ended), BridgeActionView::Ignore)
        },
        BridgeEventView::Violation(direction) => if s.relay(direction) is Ended {
            (s, BridgeActionView::Ignore)
        } else {
            (
                s.with(direction, Relay::Ended),
                BridgeActionView::Reject { side: direction.spec_source(), frame: FrameView::protocol_error() },
            )
        },
        BridgeEventView::Cancelled => if s.terminated() {
            (s, BridgeActionView::Ignore)
        } else {
            (BridgeState::ended(), BridgeActionView::ShutBoth)
        },
    }
}

/// The state after a sequence of events, taken in order.
pub open spec fn run(s: BridgeState, events: Seq<BridgeEventView>) -> BridgeState
    decreases events.len(),
{
    if events.len() == 0 {
        s
    } else {
        next(run(s, events.drop_last()), events.last()).0
    }
}

/// The action that the `i`-th event of a sequence brings.
pub open spec fn action_at(s: BridgeState, events: Seq<BridgeEventView>, i: int) -> BridgeActionView {
    next(run(s, events.take(i)), events[i]).1
}

/// The frames that a sequence of events has written in `direction`, in order.
pub open spec fn written(s: BridgeState, events: Seq<BridgeEventView>, direction: Direction) -> Seq<FrameView>
    decreases events.len(),
{
    if events.len() == 0 {
        Seq::empty()
    } else {
        let before = written(s, events.drop_last(), direction);
        match next(run(s, events.drop_last()), events.last()).1 {
            BridgeActionView::Write { direction: d, frame } => if d == direction {
                before.push(frame)
            } else {
                before
            },
            _ => before,
        }
    }
}

/// Whether `event` is a frame that is not written in `direction`: a frame
/// that the handler dropped, or a frame of the other direction.
pub open spec fn silent(event: BridgeEventView, direction: Direction) -> bool {
    event matches BridgeEventView::Frame { direction: d, kept } && (kept is None || d != direction)
}

/// A sequence of events without those that are silent for `direction`.
pub open spec fn audible(events: Seq<BridgeEventView>, direction: Direction) -> Seq<BridgeEventView>
    decreases events.len(),
{
    if events.len() == 0 {
        Seq::empty()
    } else if silent(events.last(), direction) {
        audible(events.drop_last(), direction)
    } else {
        audible(events.drop_last(), direction).push(events.last())
    }
}

/// A dropped frame changes nothing: the bridge is as it was, and nothing is
/// written to either stream.
pub proof fn law_dropped_frame_goes_nowhere(s: BridgeState, direction: Direction)
    ensures
        next(s, BridgeEventView::Frame { direction, kept: None }) == (s, BridgeActionView::Discard),
{
}

/// Every frame that is written is a frame that the handler kept, written in
/// the direction in which it was read, while the relay of that direction was open.
pub proof fn law_written_frames_were_kept(s: BridgeState, events: Seq<BridgeEventView>, i: int)
    requires
        0 <= i < events.len(),
        action_at(s, events, i) is Write,
    ensures
        events[i] == (BridgeEventView::Frame {
            direction: action_at(s, events, i)->Write_direction,
            kept: Some(action_at(s, events, i)->Write_frame),
        }),
        run(s, events.take(i)).relay(action_at(s, events, i)->Write_direction) is Open,
{
}

/// What is written in one direction does not depend on the frames that were
/// dropped, nor on any frame of the other direction: without them the same
/// frames are written in `direction`, in the same order, and the bridge ends
/// in the same state.
pub proof fn law_directions_are_independent(s: BridgeState, events: Seq<BridgeEventView>, direction: Direction)
    ensures
        run(s, audible(events, direction)) == run(s, events),
        written(s, audible(events, direction), direction) == written(s, events, direction),
    decreases events.len(),
{
    if events.len() > 0 {
        let front = events.drop_last();
        law_directions_are_independent(s, front, direction);
        if !silent(events.last(), direction) {
            let kept = audible(front, direction).push(events.last());
            assert(kept.drop_last() =~= audible(front, direction));
            assert(kept.last() == events.last());
        }
    }
}

/// A protocol violation closes only the relay that met it, with a close
/// frame that carries the protocol-error code, sent to the end that
/// violated; the other relay is left as it is.
pub proof fn law_violation_closes_one_relay(s: BridgeState, direction: Direction)
    requires
        !(s.relay(direction) is Ended),
    ensures
        next(s, BridgeEventView::Violation(direction)).0.relay(direction) is Ended,
        next(s, BridgeEventView::Violation(direction)).0.relay(direction.spec_opposite()) == s.relay(
            direction.spec_opposite(),
        ),
        next(s, BridgeEventView::Violation(direction)).1 == (BridgeActionView::Reject {
            side: direction.spec_source(),
            frame: FrameView::protocol_error(),
        }),
{
}

/// Either direction closing closes the other: when a relay ends while the
/// other is open, the other is asked to close; and the bridge is over once
/// both have ended.
pub proof fn law_end_closes_opposite(s: BridgeState, direction: Direction)
    requires
        !(s.relay(direction) is Ended),
    ensures
        next(s, BridgeEventView::Ended(direction)).0.relay(direction) is Ended,
        s.relay(direction.spec_opposite()) is Open ==> next(s, BridgeEventView::Ended(direction)).1
            == BridgeActionView::Shut(direction.spec_opposite()) && next(
            s,
            BridgeEventView::Ended(direction),
        ).0.relay(direction.spec_opposite()) is Closing,
        next(s, BridgeEventView::Ended(direction)).0.terminated() == (s.relay(
            direction.spec_opposite(),
        ) is Ended),
{
}

/// A relay that has ended stays ended, whatever happens.
pub proof fn lemma_ended_stays(s: BridgeState, events: Seq<BridgeEventView>, direction: Direction)
    requires
        s.relay(direction) is Ended,
    ensures
        run(s, events).relay(direction) is Ended,
    decreases events.len(),
{
    if events.len() > 0 {
        lemma_ended_stays(s, events.drop_last(), direction);
    }
}

/// Cancellation reaches both directions at once: after it both relays have
/// ended, and nothing is written any more in either direction.
pub proof fn law_cancellation_ends_both(s: BridgeState, events: Seq<BridgeEventView>, k: int, i: int)
    requires
        0 <= k < i < events.len(),
        events[k] is Cancelled,
    ensures
        run(s, events.take(k + 1)).terminated(),
        run(s, events.take(i)).terminated(),
        !(action_at(s, events, i) is Write),
{
    assert(events.take(k + 1).drop_last() =~= events.take(k));
    assert(events.take(k + 1).last() == events[k]);
    let t = run(s, events.take(k + 1));
    assert(t.terminated());
    lemma_run_from(s, events, k + 1, i);
    lemma_ended_stays(t, events.subrange(k + 1, i), Direction::ClientToOrigin);
    lemma_ended_stays(t, events.subrange(k + 1, i), Direction::OriginToClient);
}

/// Running a sequence of events is running its first `i` and going on from there.
pub proof fn lemma_run_from(s: BridgeState, events: Seq<BridgeEventView>, i: int, j: int)
    requires
        0 <= i <= j <= events.len(),
    ensures
        run(s, events.take(j)) == run(run(s, events.take(i)), events.subrange(i, j)),
    decreases j - i,
{
    if i == j {
        assert(events.subrange(i, j) =~= Seq::<BridgeEventView>::empty());
    } else {
        lemma_run_from(s, events, i, j - 1);
        assert(events.take(j).drop_last() =~= events.take(j - 1));
        assert(events.subrange(i, j).drop_last() =~= events.subrange(i, j - 1));
        assert(events.take(j).last() == events.subrange(i, j).last());
    }
}

/// Whether `(after, action)` is what a bridge in `before` comes to once the
/// handler has returned `kept` for a frame read in `direction`.
pub open spec fn relayed(
    before: BridgeState,
    direction: Direction,
    kept: Option<FrameView>,
    after: BridgeState,
    action: BridgeActionView,
) -> bool {
    (after, action) == next(before, BridgeEventView::Frame { direction, kept })
}

/// A bridge between a client and an origin that both speak WebSocket.
#[derive(Debug)]
pub struct Bridge {
    state: BridgeState,
}

impl View for Bridge {
    type V = BridgeState;

    closed spec fn view(&self) -> BridgeState {
        self.state
    }
}

impl Bridge {
    /// A bridge whose two handshakes have succeeded: both relays are open.
    pub fn new() -> (bridge: Bridge)
        ensures
            bridge@ == BridgeState::open(),
    {
        Bridge { state: BridgeState { client_to_origin: Relay::Open, origin_to_client: Relay::Open } }
    }

    /// Where the two relays stand.
    pub fn state(&self) -> (state: BridgeState)
        ensures
            state == self@,
    {
        self.state
    }

    /// Whether the bridge is over: both relays have ended.
    pub fn is_terminated(&self) -> (over: bool)
        ensures
            over == self@.terminated(),
    {
        matches!(self.state.client_to_origin, Relay::Ended) && matches!(
            self.state.origin_to_client,
            Relay::Ended
        )
    }

    fn relay_of(&self, direction: Direction) -> (relay: Relay)
        ensures
            relay == self@.relay(direction),
    {
        match direction {
            Direction::ClientToOrigin => self.state.client_to_origin,
            Direction::OriginToClient => self.state.origin_to_client,
        }
    }

    fn set_relay(&mut self, direction: Direction, relay: Relay)
        ensures
            final(self)@ == old(self)@.with(direction, relay),
    {
        match direction {
            Direction::ClientToOrigin => {
                self.state.client_to_origin = relay;
            },
            Direction::OriginToClient => {
                self.state.origin_to_client = relay;
            },
        }
    }

    /// Takes one event and says what the caller does next.
    pub fn step(&mut self, event: BridgeEvent) -> (action: BridgeAction)
        ensures
            (final(self)@, action@) == next(old(self)@, event@),
    {
        match event {
            BridgeEvent::Frame { direction, kept } => match kept {
                Some(frame) => match self.relay_of(direction) {
                    Relay::Open => BridgeAction::Write { direction, frame },
                    _ => BridgeAction::Discard,
                },
                None => BridgeAction::Discard,
            },
            BridgeEvent::Ended(direction) => match self.relay_of(direction) {
                Relay::Ended => BridgeAction::Ignore,
                _ => {
                    self.set_relay(direction, Relay::Ended);
                    match self.relay_of(direction.opposite()) {
                        Relay::Open => {
                            self.set_relay(direction.opposite(), Relay::Closing);
                            BridgeAction::Shut(direction.opposite())
                        },
                        _ => BridgeAction::Ignore,
                    }
                },
            },
            BridgeEvent::Violation(direction) => match self.relay_of(direction) {
                Relay::Ended => BridgeAction::Ignore,
                _ => {
                    self.set_relay(direction, Relay::Ended);
                    BridgeAction::Reject { side: direction.source(), frame: Frame::protocol_error() }
                },
            },
            BridgeEvent::Cancelled => {
                if self.is_terminated() {
                    BridgeAction::Ignore
                } else {
                    self.state = BridgeState { client_to_origin: Relay::Ended, origin_to_client: Relay::Ended };
                    BridgeAction::ShutBoth
                }
            },
        }
    }

    /// Relays one frame that was read in `direction`: hands it to `handler`
    /// and takes the step that its answer brings. The frame is written on
    /// only if the handler kept one and the relay of `direction` is open;
    /// either way the two relays stand as they stood.
    pub fn relay<W: WebSocketHandler>(&mut self, handler: &mut W, direction: Direction, frame: Frame) -> (action:
        BridgeAction)
        ensures
            final(self)@ == old(self)@,
            exists|kept: Option<FrameView>| #[trigger]
                relayed(old(self)@, direction, kept, final(self)@, action@),
    {
        let kept = match direction {
            Direction::ClientToOrigin => handler.on_client_frame(frame),
            Direction::OriginToClient => handler.on_server_frame(frame),
        };
        let ghost held = kept_view(kept);
        let action = self.step(BridgeEvent::Frame { direction, kept });
        assert(relayed(old(self)@, direction, held, self@, action@));
        action
    }
}

} // verus!
