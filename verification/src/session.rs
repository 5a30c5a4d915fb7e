//! The decisions of one connection: when the right-hand peer is constructed,
//! and what happens to it when either side goes away. The loop that performs
//! the actions and reports the events is outside this library.

use crate::environment::{ConstructError, ConstructParams, ParamsView};
use crate::peer_ctl::{constructed, ConstructorView, PeerConstructor};
use crate::registry::{ClassView, Registry};
use crate::resolver::{fits, SpecifierTree, TreeView};
use vstd::prelude::*;

verus! {

/// Where one connection stands.
#[derive(Clone, Copy, Debug, PartialEq, Eq, Structural)]
pub enum SessionState {
    /// The left peer's handshake is under way; no snapshot exists yet.
    Handshaking,
    /// The right-hand peer is being connected.
    Constructing,
    /// Both peers are connected.
    Connected,
    /// The connection is over.
    Closed,
}

/// What the connection loop reports.
#[derive(Debug, PartialEq, Eq)]
pub enum SessionEvent {
    /// The left handshake is complete; this is the context it filled in.
    HandshakeDone(ConstructParams),
    /// The left peer went away.
    LeftDropped,
    /// The right-hand peer is connected.
    RightConnected,
    /// The right-hand peer could not be connected, or went away.
    RightFailed,
}

/// The mathematical content of an event.
pub enum SessionEventView {
    HandshakeDone(ParamsView),
    LeftDropped,
    RightConnected,
    RightFailed,
}

impl View for SessionEvent {
    type V = SessionEventView;

    open spec fn view(&self) -> SessionEventView {
        match self {
            SessionEvent::HandshakeDone(cp) => SessionEventView::HandshakeDone(cp@),
            SessionEvent::LeftDropped => SessionEventView::LeftDropped,
            SessionEvent::RightConnected => SessionEventView::RightConnected,
            SessionEvent::RightFailed => SessionEventView::RightFailed,
        }
    }
}

/// What the connection loop is to do next.
#[derive(Debug, PartialEq, Eq)]
pub enum SessionAction {
    /// Nothing.
    Idle,
    /// Drive this constructor, which is no `Error`, to a connected peer.
    Connect(PeerConstructor),
    /// Refuse the left peer: construction failed for this connection.
    Refuse(ConstructError),
    /// Drop the pending or connected right-hand peer of this connection.
    CancelRight,
    /// Close the left peer.
    CloseLeft,
    /// Start copying data between the peers.
    Relay,
}

/// The mathematical content of an action.
pub enum SessionActionView {
    Idle,
    Connect(ConstructorView),
    Refuse(ConstructError),
    CancelRight,
    CloseLeft,
    Relay,
}

impl View for SessionAction {
    type V = SessionActionView;

    open spec fn view(&self) -> SessionActionView {
        match self {
            SessionAction::Idle => SessionActionView::Idle,
            SessionAction::Connect(constructor) => SessionActionView::Connect(constructor@),
            SessionAction::Refuse(e) => SessionActionView::Refuse(*e),
            SessionAction::CancelRight => SessionActionView::CancelRight,
            SessionAction::CloseLeft => SessionActionView::CloseLeft,
            SessionAction::Relay => SessionActionView::Relay,
        }
    }
}

/// The next state and the action for a state and an event. Construction is
/// entered from `Handshaking` on `HandshakeDone` and nowhere else; an event
/// that does not belong to the state changes nothing.
pub open spec fn stepped(
    reg: Seq<ClassView>,
    tree: TreeView,
    state: SessionState,
    event: SessionEventView,
) -> (SessionState, SessionActionView)
    recommends
        fits(reg, tree),
{
    match (state, event) {
        (SessionState::Handshaking, SessionEventView::HandshakeDone(cp)) => match constructed(
            reg,
            cp,
            tree,
            cp.depth,
        ) {
            ConstructorView::Error(e) => (SessionState::Closed, SessionActionView::Refuse(e)),
            constructor => (SessionState::Constructing, SessionActionView::Connect(constructor)),
        },
        (SessionState::Handshaking, SessionEventView::LeftDropped) => (
            SessionState::Closed,
            SessionActionView::Idle,
        ),
        (SessionState::Constructing, SessionEventView::LeftDropped) => (
            SessionState::Closed,
            SessionActionView::CancelRight,
        ),
        (SessionState::Constructing, SessionEventView::RightConnected) => (
            SessionState::Connected,
            SessionActionView::Relay,
        ),
        (SessionState::Constructing, SessionEventView::RightFailed) => (
            SessionState::Closed,
            SessionActionView::CloseLeft,
        ),
        (SessionState::Connected, SessionEventView::LeftDropped) => (
            SessionState::Closed,
            SessionActionView::CancelRight,
        ),
        (SessionState::Connected, SessionEventView::RightFailed) => (
            SessionState::Closed,
            SessionActionView::CloseLeft,
        ),
        _ => (state, SessionActionView::Idle),
    }
}

/// The states that a connection passes through for a sequence of events.
pub open spec fn state_after(
    reg: Seq<ClassView>,
    tree: TreeView,
    state: SessionState,
    events: Seq<SessionEventView>,
) -> SessionState
    decreases events.len(),
{
    if events.len() == 0 {
        state
    } else {
        state_after(reg, tree, stepped(reg, tree, state, events[0]).0, events.drop_first())
    }
}

/// The action at position `at` of a sequence of events.
pub open spec fn action_at(
    reg: Seq<ClassView>,
    tree: TreeView,
    state: SessionState,
    events: Seq<SessionEventView>,
    at: int,
) -> SessionActionView
    recommends
        0 <= at < events.len(),
{
    stepped(reg, tree, state_after(reg, tree, state, events.take(at)), events[at]).1
}

/// The right-hand peer is constructed only once the handshake is complete:
/// `Connect` is the answer to `HandshakeDone` in `Handshaking` and to nothing
/// else, and what it carries is what the tree constructs in the context that
/// the handshake filled in.
pub proof fn lemma_connect_follows_handshake(
    reg: Seq<ClassView>,
    tree: TreeView,
    state: SessionState,
    event: SessionEventView,
)
    ensures
        stepped(reg, tree, state, event).1 matches SessionActionView::Connect(constructor) ==> {
            &&& state == SessionState::Handshaking
            &&& event matches SessionEventView::HandshakeDone(cp)
            &&& constructor == constructed(reg, cp, tree, cp.depth)
            &&& !(constructor is Error)
        },
{
}

/// A closed connection stays closed and asks for nothing.
pub proof fn lemma_closed_is_final(
    reg: Seq<ClassView>,
    tree: TreeView,
    events: Seq<SessionEventView>,
)
    ensures
        state_after(reg, tree, SessionState::Closed, events) == SessionState::Closed,
        forall|at: int|
            0 <= at < events.len() ==> #[trigger] action_at(
                reg,
                tree,
                SessionState::Closed,
                events,
                at,
            ) == SessionActionView::Idle,
    decreases events.len(),
{
    if events.len() > 0 {
        lemma_closed_is_final(reg, tree, events.drop_first());
        assert forall|at: int| 0 <= at < events.len() implies #[trigger] action_at(
            reg,
            tree,
            SessionState::Closed,
            events,
            at,
        ) == SessionActionView::Idle by {
            lemma_closed_is_final(reg, tree, events.take(at));
        }
    }
}

/// When the left peer goes away during the handshake, no construction of
/// the right-hand peer is ever asked for, whatever is reported afterwards.
pub proof fn lemma_drop_in_handshake_constructs_nothing(
    reg: Seq<ClassView>,
    tree: TreeView,
    later: Seq<SessionEventView>,
    at: int,
)
    requires
        0 <= at <= later.len(),
    ensures
        !(action_at(
            reg,
            tree,
            SessionState::Handshaking,
            seq![SessionEventView::LeftDropped] + later,
            at,
        ) is Connect),
{
    let events = seq![SessionEventView::LeftDropped] + later;
    if at > 0 {
        let before = events.take(at);
        assert(before.drop_first() =~= later.take(at - 1));
        assert(before[0] == SessionEventView::LeftDropped);
        lemma_closed_is_final(reg, tree, later.take(at - 1));
        assert(state_after(reg, tree, SessionState::Handshaking, before) == SessionState::Closed);
    } else {
        assert(events.take(0) =~= Seq::<SessionEventView>::empty());
    }
}

/// Decides what follows `event` in `state`, for the connection whose
/// right-hand side is `tree`.
pub fn step(
    registry: &Registry,
    tree: &SpecifierTree,
    state: SessionState,
    event: SessionEvent,
) -> (next: (SessionState, SessionAction))
    requires
        fits(registry@, tree@),
    ensures
        (next.0, next.1@) == stepped(registry@, tree@, state, event@),
{
    match (state, event) {
        (SessionState::Handshaking, SessionEvent::HandshakeDone(cp)) => {
            match tree.construct(registry, &cp) {
                PeerConstructor::Error(e) => (SessionState::Closed, SessionAction::Refuse(e)),
                constructor => (SessionState::Constructing, SessionAction::Connect(constructor)),
            }
        },
        (SessionState::Handshaking, SessionEvent::LeftDropped) => (
            SessionState::Closed,
            SessionAction::Idle,
        ),
        (SessionState::Constructing, SessionEvent::LeftDropped) => (
            SessionState::Closed,
            SessionAction::CancelRight,
        ),
        (SessionState::Constructing, SessionEvent::RightConnected) => (
            SessionState::Connected,
            SessionAction::Relay,
        ),
        (SessionState::Constructing, SessionEvent::RightFailed) => (
            SessionState::Closed,
            SessionAction::CloseLeft,
        ),
        (SessionState::Connected, SessionEvent::LeftDropped) => (
            SessionState::Closed,
            SessionAction::CancelRight,
        ),
        (SessionState::Connected, SessionEvent::RightFailed) => (
            SessionState::Closed,
            SessionAction::CloseLeft,
        ),
        (state, _) => (state, SessionAction::Idle),
    }
}

} // verus!
