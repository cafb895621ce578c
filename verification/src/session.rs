//! Peer-connection states as the WebRTC stack reports them, and the
//! predicates the sessions and managers decide by.

use vstd::prelude::*;

verus! {

/// State of a peer connection.
#[derive(Debug, Clone, Copy, PartialEq, Eq, Structural)]
pub enum PeerConnState {
    New,
    Connecting,
    Connected,
    Disconnected,
    Failed,
    Closed,
}

/// A connection in a terminal state never carries traffic again.
pub open spec fn terminal_state(s: PeerConnState) -> bool {
    s == PeerConnState::Failed || s == PeerConnState::Closed
}

/// A session may still carry traffic unless its connection has failed, has
/// closed, or is (transiently) disconnected.
pub open spec fn active_state(s: PeerConnState) -> bool {
    !(s == PeerConnState::Failed || s == PeerConnState::Closed || s
        == PeerConnState::Disconnected)
}

/// Whether `s` is terminal.
pub fn is_terminal_state(s: PeerConnState) -> (r: bool)
    ensures
        r == terminal_state(s),
{
    match s {
        PeerConnState::Failed => true,
        PeerConnState::Closed => true,
        _ => false,
    }
}

/// Whether a session whose connection reports `s` is still active.
pub fn is_active_state(s: PeerConnState) -> (r: bool)
    ensures
        r == active_state(s),
{
    match s {
        PeerConnState::Failed => false,
        PeerConnState::Closed => false,
        PeerConnState::Disconnected => false,
        _ => true,
    }
}

} // verus!
