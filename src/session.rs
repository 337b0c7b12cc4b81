//! The peer session: handshake and alternating move exchange, as a state
//! machine from the current phase and an event of the link to the next phase
//! and what to do. The side that owns the connection performs the action and
//! hands the next event back.
use vstd::prelude::*;
use crate::entities::{Move, Inbound, in_range};
use crate::frame::{
    WireError, frame_of, be_value, lemma_frame_round_trip, lemma_move_round_trip, hello_spec, hello_payload, is_hello, move_payload, encode_move, decode_move,
    decode_move_spec,
};

verus! {

/// Which side a peer takes: the Initiator accepts the connection and its mark
/// moves first; the Responder dials out.
#[derive(Clone, Copy, Debug, PartialEq, Eq, Structural)]
pub enum Role {
    Initiator,
    Responder,
}

/// Where a session stands. `AwaitLocal` and `AwaitPeer` together are the
/// active phase; `Failed` is final.
#[derive(Clone, Copy, Debug, PartialEq, Eq, Structural)]
pub enum Phase {
    Disconnected,
    Handshake,
    AwaitLocal,
    AwaitPeer,
    Failed(WireError),
}

/// The handshake succeeded and moves are being exchanged.
pub open spec fn is_active(p: Phase) -> bool {
    p is AwaitLocal || p is AwaitPeer
}

/// A session of one peer.
#[derive(Clone, Copy, Debug, PartialEq, Eq, Structural)]
pub struct Session {
    pub role: Role,
    pub phase: Phase,
}

/// What happened on the link or at the local peer.
#[derive(Debug)]
pub enum SessionEvent {
    /// The connection is up (accepted or dialled).
    Connected,
    /// A frame arrived with this payload.
    Received(Vec<u8>),
    /// The local peer confirmed this move.
    Local(Move),
    /// A read or a write failed, or the stream closed.
    LinkFailed,
}

/// A `SessionEvent` with its payload as a sequence of bytes.
pub enum EventModel {
    Connected,
    Received(Seq<u8>),
    Local(Move),
    LinkFailed,
}

impl View for SessionEvent {
    type V = EventModel;

    open spec fn view(&self) -> EventModel {
        match self {
            SessionEvent::Connected => EventModel::Connected,
            SessionEvent::Received(b) => EventModel::Received(b@),
            SessionEvent::Local(m) => EventModel::Local(*m),
            SessionEvent::LinkFailed => EventModel::LinkFailed,
        }
    }
}

/// What the session waits for next.
#[derive(Clone, Copy, Debug, PartialEq, Eq, Structural)]
pub enum Next {
    /// Read the next frame from the peer.
    ReadPeer,
    /// Wait for a move confirmed by the local peer.
    WaitLocal,
    /// Stop: the session has failed.
    Halt,
}

/// What to do after an event: send a frame with this payload, then hand this
/// item to the game, then wait as `next` says.
#[derive(Debug)]
pub struct Action {
    pub send: Option<Vec<u8>>,
    pub deliver: Option<Inbound>,
    pub next: Next,
}

/// An `Action` with its payload as a sequence of bytes.
pub struct ActionModel {
    pub send: Option<Seq<u8>>,
    pub deliver: Option<Inbound>,
    pub next: Next,
}

impl View for Action {
    type V = ActionModel;

    open spec fn view(&self) -> ActionModel {
        ActionModel {
            send: match self.send {
                Some(b) => Some(b@),
                None => None,
            },
            deliver: self.deliver,
            next: self.next,
        }
    }
}

/// The session failed with `e`: nothing to send or hand over, stop.
pub open spec fn fail_spec(s: Session, e: WireError) -> (Session, ActionModel) {
    (Session { phase: Phase::Failed(e), ..s }, ActionModel { send: None, deliver: None, next: Next::Halt })
}

/// The next session and the action after event `ev`.
pub open spec fn step_spec(s: Session, ev: EventModel) -> (Session, ActionModel) {
    match (s.phase, ev) {
        (Phase::Failed(e), _) => fail_spec(s, e),
        (_, EventModel::LinkFailed) => fail_spec(s, WireError::ConnectionError),
        (Phase::Disconnected, EventModel::Connected) => match s.role {
            Role::Initiator => (
                Session { phase: Phase::Handshake, ..s },
                ActionModel { send: None, deliver: None, next: Next::ReadPeer },
            ),
            Role::Responder => (
                Session { phase: Phase::Handshake, ..s },
                ActionModel { send: Some(hello_spec()), deliver: None, next: Next::ReadPeer },
            ),
        },
        (Phase::Handshake, EventModel::Received(b)) => if b != hello_spec() {
            fail_spec(s, WireError::ProtocolError)
        } else {
            match s.role {
                Role::Initiator => (
                    Session { phase: Phase::AwaitLocal, ..s },
                    ActionModel {
                        send: Some(hello_spec()),
                        deliver: Some(Inbound::Ready),
                        next: Next::WaitLocal,
                    },
                ),
                Role::Responder => (
                    Session { phase: Phase::AwaitPeer, ..s },
                    ActionModel { send: None, deliver: Some(Inbound::Ready), next: Next::ReadPeer },
                ),
            }
        },
        (Phase::AwaitLocal, EventModel::Local(m)) => if in_range(m.col as int, m.row as int) {
            (
                Session { phase: Phase::AwaitPeer, ..s },
                ActionModel {
                    send: Some(move_payload(m.col as int, m.row as int)),
                    deliver: None,
                    next: Next::ReadPeer,
                },
            )
        } else {
            fail_spec(s, WireError::ProtocolError)
        },
        (Phase::AwaitPeer, EventModel::Received(b)) => match decode_move_spec(b) {
            Ok(m) => (
                Session { phase: Phase::AwaitLocal, ..s },
                ActionModel { send: None, deliver: Some(Inbound::Move(m)), next: Next::WaitLocal },
            ),
            Err(e) => fail_spec(s, e),
        },
        _ => fail_spec(s, WireError::ProtocolError),
    }
}

impl Session {
    /// A session that has not connected yet.
    pub fn new(role: Role) -> (s: Session)
        ensures
            s == (Session { role, phase: Phase::Disconnected }),
    {
        Session { role, phase: Phase::Disconnected }
    }

    fn fail(&mut self, e: WireError) -> (a: Action)
        ensures
            (*final(self), a@) == fail_spec(*old(self), e),
    {
        self.phase = Phase::Failed(e);
        Action { send: None, deliver: None, next: Next::Halt }
    }

    /// Takes one event and gives the action to perform. The Responder opens
    /// the handshake with `hello`; the Initiator must read exactly `hello`
    /// and answers it. Then, round after round, the Initiator sends its move
    /// and reads the reply, and the Responder reads a move and sends its own.
    /// A link failure, a malformed payload or an event the phase does not
    /// wait for fails the session for good.
    pub fn step(&mut self, ev: SessionEvent) -> (a: Action)
        ensures
            (*final(self), a@) == step_spec(*old(self), ev@),
    {
        match self.phase {
            Phase::Failed(e) => {
                return self.fail(e);
            },
            _ => {},
        }
        match ev {
            SessionEvent::LinkFailed => self.fail(WireError::ConnectionError),
            SessionEvent::Connected => {
                match self.phase {
                    Phase::Disconnected => {
                        self.phase = Phase::Handshake;
                        match self.role {
                            Role::Initiator => Action { send: None, deliver: None, next: Next::ReadPeer },
                            Role::Responder => Action {
                                send: Some(hello_payload()),
                                deliver: None,
                                next: Next::ReadPeer,
                            },
                        }
                    },
                    _ => self.fail(WireError::ProtocolError),
                }
            },
            SessionEvent::Received(b) => {
                match self.phase {
                    Phase::Handshake => {
                        if !is_hello(b.as_slice()) {
                            self.fail(WireError::ProtocolError)
                        } else {
                            match self.role {
                                Role::Initiator => {
                                    self.phase = Phase::AwaitLocal;
                                    Action {
                                        send: Some(hello_payload()),
                                        deliver: Some(Inbound::Ready),
                                        next: Next::WaitLocal,
                                    }
                                },
                                Role::Responder => {
                                    self.phase = Phase::AwaitPeer;
                                    Action { send: None, deliver: Some(Inbound::Ready), next: Next::ReadPeer }
                                },
                            }
                        }
                    },
                    Phase::AwaitPeer => {
                        match decode_move(b.as_slice()) {
                            Ok(m) => {
                                self.phase = Phase::AwaitLocal;
                                Action { send: None, deliver: Some(Inbound::Move(m)), next: Next::WaitLocal }
                            },
                            Err(e) => self.fail(e),
                        }
                    },
                    _ => self.fail(WireError::ProtocolError),
                }
            },
            SessionEvent::Local(m) => {
                match self.phase {
                    Phase::AwaitLocal => {
                        if 0 <= m.col && m.col <= 2 && 0 <= m.row && m.row <= 2 {
                            self.phase = Phase::AwaitPeer;
                            Action { send: Some(encode_move(m)), deliver: None, next: Next::ReadPeer }
                        } else {
                            self.fail(WireError::ProtocolError)
                        }
                    },
                    _ => self.fail(WireError::ProtocolError),
                }
            },
        }
    }
}

/// The session after the events `evs`, in order.
pub open spec fn run_session(s: Session, evs: Seq<EventModel>) -> Session
    decreases evs.len(),
{
    if evs.len() == 0 {
        s
    } else {
        step_spec(run_session(s, evs.drop_last()), evs.last()).0
    }
}

/// A failed session stays failed, whatever comes next.
pub proof fn lemma_failed_stays(s: Session, evs: Seq<EventModel>)
    requires
        s.phase is Failed,
    ensures
        run_session(s, evs).phase is Failed,
        run_session(s, evs).role == s.role,
    decreases evs.len(),
{
    if evs.len() > 0 {
        lemma_failed_stays(s, evs.drop_last());
    }
}

/// An Initiator in the handshake that receives anything but `hello` fails,
/// and stays failed whatever follows: it never becomes active.
pub proof fn lemma_bad_handshake_fails(s: Session, b: Seq<u8>, evs: Seq<EventModel>)
    requires
        s.role == Role::Initiator,
        s.phase == Phase::Handshake,
        b != hello_spec(),
    ensures
        step_spec(s, EventModel::Received(b)).0.phase == Phase::Failed(WireError::ProtocolError),
        run_session(step_spec(s, EventModel::Received(b)).0, evs).phase is Failed,
        !is_active(run_session(step_spec(s, EventModel::Received(b)).0, evs).phase),
{
    lemma_failed_stays(step_spec(s, EventModel::Received(b)).0, evs);
}

/// The payload that the far side reads from the frame that carries `p`.
pub open spec fn carried(p: Seq<u8>) -> Seq<u8> {
    let f = frame_of(p);
    f.subrange(8, 8 + be_value(f.take(8)))
}

/// Two sessions joined by one link, and what each has sent and been handed.
pub struct Exchange {
    pub initiator: Session,
    pub responder: Session,
    pub sent_by_initiator: Seq<Seq<u8>>,
    pub sent_by_responder: Seq<Seq<u8>>,
    pub to_initiator: Seq<Option<Inbound>>,
    pub to_responder: Seq<Option<Inbound>>,
}

/// Both sides connect; the Responder's `hello` crosses, then the
/// Initiator's answer. The sequences hold what crossed after the handshake,
/// so they start empty.
pub open spec fn handshake() -> Exchange {
    let (r1, ar1) = step_spec(
        Session { role: Role::Responder, phase: Phase::Disconnected },
        EventModel::Connected,
    );
    let (i1, ai1) = step_spec(
        Session { role: Role::Initiator, phase: Phase::Disconnected },
        EventModel::Connected,
    );
    let (i2, ai2) = step_spec(i1, EventModel::Received(carried(ar1.send->0)));
    let (r2, ar2) = step_spec(r1, EventModel::Received(carried(ai2.send->0)));
    Exchange {
        initiator: i2,
        responder: r2,
        sent_by_initiator: seq![],
        sent_by_responder: seq![],
        to_initiator: seq![],
        to_responder: seq![],
    }
}

/// The exchange after the handshake and `n` rounds, where in round `k` the
/// Initiator's local move is `mi[k]` and the Responder's is `mr[k]`. In a
/// round the Initiator sends, the Responder reads and hands over, the
/// Responder sends, the Initiator reads and hands over.
pub open spec fn rounds(n: nat, mi: Seq<Move>, mr: Seq<Move>) -> Exchange
    decreases n,
{
    if n == 0 {
        handshake()
    } else {
        let x = rounds((n - 1) as nat, mi, mr);
        let k = n - 1;
        let (i1, a1) = step_spec(x.initiator, EventModel::Local(mi[k]));
        let (r1, a2) = step_spec(x.responder, EventModel::Received(carried(a1.send->0)));
        let (r2, a3) = step_spec(r1, EventModel::Local(mr[k]));
        let (i2, a4) = step_spec(i1, EventModel::Received(carried(a3.send->0)));
        Exchange {
            initiator: i2,
            responder: r2,
            sent_by_initiator: x.sent_by_initiator.push(a1.send->0),
            sent_by_responder: x.sent_by_responder.push(a3.send->0),
            to_initiator: x.to_initiator.push(a4.deliver),
            to_responder: x.to_responder.push(a2.deliver),
        }
    }
}

/// The handshake makes both sessions active and hands `Ready` to both games.
pub proof fn lemma_handshake_ready()
    ensures
        handshake().initiator == (Session { role: Role::Initiator, phase: Phase::AwaitLocal }),
        handshake().responder == (Session { role: Role::Responder, phase: Phase::AwaitPeer }),
        step_spec(
            step_spec(Session { role: Role::Initiator, phase: Phase::Disconnected }, EventModel::Connected).0,
            EventModel::Received(hello_spec()),
        ).1.deliver == Some(Inbound::Ready),
        step_spec(
            step_spec(Session { role: Role::Responder, phase: Phase::Disconnected }, EventModel::Connected).0,
            EventModel::Received(hello_spec()),
        ).1.deliver == Some(Inbound::Ready),
{
    lemma_frame_round_trip(hello_spec());
    assert(carried(hello_spec()) == hello_spec());
}

/// Over `n` rounds with valid moves, both sessions stay active; the
/// Initiator sends `n` moves and the Responder is handed the same `n` moves
/// in the same order, and the other way round.
pub proof fn lemma_rounds_in_order(n: nat, mi: Seq<Move>, mr: Seq<Move>)
    requires
        n <= mi.len(),
        n <= mr.len(),
        forall|k: int| 0 <= k < n ==> in_range(#[trigger] mi[k].col as int, mi[k].row as int),
        forall|k: int| 0 <= k < n ==> in_range(#[trigger] mr[k].col as int, mr[k].row as int),
    ensures
        rounds(n, mi, mr).initiator == (Session { role: Role::Initiator, phase: Phase::AwaitLocal }),
        rounds(n, mi, mr).responder == (Session { role: Role::Responder, phase: Phase::AwaitPeer }),
        rounds(n, mi, mr).sent_by_initiator.len() == n,
        rounds(n, mi, mr).to_responder.len() == n,
        rounds(n, mi, mr).sent_by_responder.len() == n,
        rounds(n, mi, mr).to_initiator.len() == n,
        forall|k: int|
            0 <= k < n ==> #[trigger] rounds(n, mi, mr).to_responder[k] == Some(Inbound::Move(mi[k])),
        forall|k: int|
            0 <= k < n ==> #[trigger] rounds(n, mi, mr).to_initiator[k] == Some(Inbound::Move(mr[k])),
        forall|k: int|
            0 <= k < n ==> #[trigger] rounds(n, mi, mr).sent_by_initiator[k] == move_payload(
                mi[k].col as int,
                mi[k].row as int,
            ),
        forall|k: int|
            0 <= k < n ==> #[trigger] rounds(n, mi, mr).sent_by_responder[k] == move_payload(
                mr[k].col as int,
                mr[k].row as int,
            ),
    decreases n,
{
    if n == 0 {
        lemma_handshake_ready();
    } else {
        let k = n - 1;
        lemma_rounds_in_order((n - 1) as nat, mi, mr);
        let pi = move_payload(mi[k].col as int, mi[k].row as int);
        let pr = move_payload(mr[k].col as int, mr[k].row as int);
        lemma_frame_round_trip(pi);
        lemma_frame_round_trip(pr);
        lemma_move_round_trip(mi[k]);
        lemma_move_round_trip(mr[k]);
        assert(carried(pi) == pi);
        assert(carried(pr) == pr);
    }
}

} // verus!
