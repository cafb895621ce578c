//! Typed messages carried over the signaling bus.

use vstd::prelude::*;

verus! {

/// Kind of a signaling message: the caller sends offers, the callee answers,
/// and both sides trade ICE candidates.
#[derive(Debug, Clone, Copy, PartialEq, Eq, Structural)]
pub enum SignalType {
    Offer,
    Answer,
    Candidate,
}

/// The wire token of a signal type, exactly as it appears in the JSON
/// envelope (case-sensitive).
pub open spec fn signal_type_token(t: SignalType) -> Seq<char> {
    match t {
        SignalType::Offer => "Offer"@,
        SignalType::Answer => "Answer"@,
        SignalType::Candidate => "Candidate"@,
    }
}

impl SignalType {
    /// The wire token of this signal type.
    pub fn as_str(&self) -> (r: &'static str)
        ensures
            r@ == signal_type_token(*self),
    {
        match self {
            SignalType::Offer => "Offer",
            SignalType::Answer => "Answer",
            SignalType::Candidate => "Candidate",
        }
    }
}

/// One signaling message: who sent it, the SDP or candidate text, and its kind.
#[derive(Debug, Clone)]
pub struct SignalPayload {
    pub from_id: String,
    pub payload: String,
    pub signal_type: SignalType,
}

/// Liveness of a participant as retained on its status topic.
#[derive(Debug, Clone, Copy, PartialEq, Eq, Structural)]
pub enum PeerStatus {
    Online,
    Offline,
}

/// The wire token of a liveness status (lowercase).
pub open spec fn peer_status_token(s: PeerStatus) -> Seq<char> {
    match s {
        PeerStatus::Online => "online"@,
        PeerStatus::Offline => "offline"@,
    }
}

impl PeerStatus {
    /// The wire token of this status.
    pub fn as_str(&self) -> (r: &'static str)
        ensures
            r@ == peer_status_token(*self),
    {
        match self {
            PeerStatus::Online => "online",
            PeerStatus::Offline => "offline",
        }
    }
}

/// Role of a participant: a caller initiates offers and a callee replies
/// with answers.  The role fixes the topic namespace the participant
/// publishes under.
#[derive(Debug, Clone, Copy, PartialEq, Eq, Structural)]
pub enum SignalRole {
    Caller,
    Callee,
}

/// The lowercase wire token of a role, used as the leading topic segment.
pub open spec fn role_token(role: SignalRole) -> Seq<char> {
    match role {
        SignalRole::Caller => "caller"@,
        SignalRole::Callee => "callee"@,
    }
}

/// The capitalized name of a role, used when deriving a broker client id.
pub open spec fn role_name(role: SignalRole) -> Seq<char> {
    match role {
        SignalRole::Caller => "Caller"@,
        SignalRole::Callee => "Callee"@,
    }
}

impl SignalRole {
    /// The lowercase wire token of this role.
    pub fn as_str(&self) -> (r: &'static str)
        ensures
            r@ == role_token(*self),
    {
        match self {
            SignalRole::Caller => "caller",
            SignalRole::Callee => "callee",
        }
    }

    /// The capitalized name of this role.
    pub fn name(&self) -> (r: &'static str)
        ensures
            r@ == role_name(*self),
    {
        match self {
            SignalRole::Caller => "Caller",
            SignalRole::Callee => "Callee",
        }
    }
}

} // verus!
