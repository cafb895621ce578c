//! Portal session rules (caller side).
//!
//! A Portal owns one peer connection towards one remote identity, accepts
//! local socket connections, and opens a fresh DataChannel per accepted
//! socket.  The functions here decide everything the session does; the
//! peer-connection, listener and timer work around them is driven by their
//! results.

use vstd::prelude::*;

use crate::addr::{classify_addr_uri, AddrKind};
use crate::config::PeerConfig;
use crate::message::{SignalPayload, SignalType};
use crate::numbers::{dec_int, i64_to_string};
use crate::session::{is_terminal_state, terminal_state, PeerConnState};

verus! {

/// What a Portal session reports to its manager.
#[derive(Debug, Clone)]
pub enum PortalEvent {
    Candidate { remote_id: String, payload: SignalPayload },
    Offer { remote_id: String, payload: SignalPayload },
    Connected { remote_id: String },
    Closed { remote_id: String },
}

/// What to do with an incoming signal message.
#[derive(Debug, Clone)]
pub enum PortalSignalAction {
    /// Set the payload as the remote session description.
    SetRemoteAnswer { sdp: String },
    /// Add the payload as a remote ICE candidate.
    AddIceCandidate { candidate: String },
    /// A Portal is the offerer; anything else is ignored.
    Ignore,
}

/// What to do with one accepted local socket.
#[derive(Debug, Clone)]
pub enum AcceptDecision {
    /// Open a DataChannel with this label and bridge it to the socket.
    Bridge { label: String },
    /// The peer connection is terminal: drop the socket and stop accepting.
    Stop,
}

/// The label of a data channel opened for one accepted socket: the local id,
/// a dash, and the milliseconds timestamp of the accept.
pub open spec fn dc_label_text(id: Seq<char>, millis: int) -> Seq<char> {
    id + "-"@ + dec_int(millis)
}

/// Whether `l` is a channel label this Portal generates, for any timestamp.
pub open spec fn is_fresh_label(id: Seq<char>, l: Seq<char>) -> bool {
    exists|millis: int| l == dc_label_text(id, millis)
}

/// A generated channel label is never the control channel's label.
pub proof fn lemma_fresh_label_not_default(id: Seq<char>, l: Seq<char>)
    requires
        is_fresh_label(id, l),
    ensures
        l != "DEFAULT"@,
{
    reveal_strlit("DEFAULT");
    reveal_strlit("-");
    let millis = choose|millis: int| l == dc_label_text(id, millis);
    let digits = dec_int(millis);
    assert(digits.len() >= 1);
    assert(l.len() == id.len() + 1 + digits.len());
    if l == "DEFAULT"@ {
        assert(l.len() == 7);
        let k = id.len() as int;
        assert(k <= 5);
        assert(l[k] == (id + "-"@)[k]);
        assert(l[k] == '-');
        if k == 0 {
        } else if k == 1 {
        } else if k == 2 {
        } else if k == 3 {
        } else if k == 4 {
        } else {
            assert(k == 5);
        }
        assert(false);
    }
}

/// Relies on chrono's Utc::now and timestamp_millis: the current time as
/// milliseconds since the Unix epoch.  Nothing is assumed of the value.
#[verifier::external_body]
fn now_unix_millis() -> i64 {
    chrono::Utc::now().timestamp_millis()
}

/// A Portal session: the caller-side endpoint for one remote identity.  The
/// peer connection, the listener task and the connected-notifier live with
/// the runtime that drives this session.
#[derive(Debug, Clone)]
pub struct Portal {
    pub local_id: String,
    pub remote_id: String,
    pub addr_uri: String,
    pub config: PeerConfig,
}

impl Portal {
    /// A session record for one remote identity.
    pub fn new(local_id: String, remote_id: String, addr_uri: String, config: PeerConfig) -> (p:
        Self)
        ensures
            p.local_id == local_id,
            p.remote_id == remote_id,
            p.addr_uri == addr_uri,
            p.config == config,
    {
        Portal { local_id, remote_id, addr_uri, config }
    }

    /// The offer event to publish after the local description is set.
    pub fn offer_event(&self, sdp: String) -> (e: PortalEvent)
        ensures
            e matches PortalEvent::Offer { remote_id, payload } && remote_id@ == self.remote_id@
                && payload.from_id@ == self.local_id@ && payload.payload@ == sdp@
                && payload.signal_type == SignalType::Offer,
    {
        PortalEvent::Offer {
            remote_id: self.remote_id.clone(),
            payload: SignalPayload {
                from_id: self.local_id.clone(),
                payload: sdp,
                signal_type: SignalType::Offer,
            },
        }
    }

    /// The candidate event to publish for one gathered ICE candidate.
    pub fn candidate_event(&self, candidate: String) -> (e: PortalEvent)
        ensures
            e matches PortalEvent::Candidate { remote_id, payload } && remote_id@
                == self.remote_id@ && payload.from_id@ == self.local_id@ && payload.payload@
                == candidate@ && payload.signal_type == SignalType::Candidate,
    {
        PortalEvent::Candidate {
            remote_id: self.remote_id.clone(),
            payload: SignalPayload {
                from_id: self.local_id.clone(),
                payload: candidate,
                signal_type: SignalType::Candidate,
            },
        }
    }

    /// The event a connection state change raises: `Connected` is reported
    /// as such, losing the connection in any way is reported as `Closed`,
    /// and the handshake states raise nothing.
    pub fn state_event(&self, state: PeerConnState) -> (e: Option<PortalEvent>)
        ensures
            state == PeerConnState::Connected ==> (e matches Some(
                PortalEvent::Connected { remote_id },
            ) && remote_id@ == self.remote_id@),
            state == PeerConnState::Disconnected || terminal_state(state) ==> (e matches Some(
                PortalEvent::Closed { remote_id },
            ) && remote_id@ == self.remote_id@),
            state == PeerConnState::New || state == PeerConnState::Connecting ==> e is None,
    {
        match state {
            PeerConnState::Connected => Some(
                PortalEvent::Connected { remote_id: self.remote_id.clone() },
            ),
            PeerConnState::Disconnected | PeerConnState::Failed | PeerConnState::Closed => Some(
                PortalEvent::Closed { remote_id: self.remote_id.clone() },
            ),
            _ => None,
        }
    }

    /// Whether a state change fires the connected-notifier.
    pub fn notifies_connected(&self, state: PeerConnState) -> (r: bool)
        ensures
            r == (state == PeerConnState::Connected),
    {
        match state {
            PeerConnState::Connected => true,
            _ => false,
        }
    }

    /// What to do with a signal message from the remote: an answer becomes
    /// the remote description, a candidate is added, and anything else is
    /// ignored, since a Portal is the offerer.
    pub fn handle_signal_message(&self, msg: SignalPayload) -> (a: PortalSignalAction)
        ensures
            msg.signal_type == SignalType::Answer ==> (a
                matches PortalSignalAction::SetRemoteAnswer { sdp } && sdp@ == msg.payload@),
            msg.signal_type == SignalType::Candidate ==> (a
                matches PortalSignalAction::AddIceCandidate { candidate } && candidate@
                == msg.payload@),
            msg.signal_type == SignalType::Offer ==> a is Ignore,
    {
        match msg.signal_type {
            SignalType::Answer => PortalSignalAction::SetRemoteAnswer { sdp: msg.payload },
            SignalType::Candidate => PortalSignalAction::AddIceCandidate {
                candidate: msg.payload,
            },
            SignalType::Offer => PortalSignalAction::Ignore,
        }
    }

    /// The label of a data channel opened at time `millis`.
    pub fn data_channel_label(&self, millis: i64) -> (r: String)
        ensures
            r@ == dc_label_text(self.local_id@, millis as int),
            r@ != "DEFAULT"@,
    {
        let mut out = self.local_id.clone();
        out.append("-");
        let digits = i64_to_string(millis);
        out.append(digits.as_str());
        proof {
            assert(out@ =~= dc_label_text(self.local_id@, millis as int));
            lemma_fresh_label_not_default(self.local_id@, out@);
        }
        out
    }

    /// A label for a freshly accepted socket, stamped with the time of the
    /// accept.
    pub fn create_data_channel(&self) -> (r: String)
        ensures
            is_fresh_label(self.local_id@, r@),
            r@ != "DEFAULT"@,
    {
        let millis = now_unix_millis();
        let label = self.data_channel_label(millis);
        proof {
            assert(label@ == dc_label_text(self.local_id@, millis as int));
        }
        label
    }

    /// What to do with one accepted local socket: if the peer connection is
    /// terminal the socket is dropped and the accept loop stops; otherwise
    /// the socket is bridged over a fresh channel, never the control
    /// channel.
    pub fn accept_step(&self, state: PeerConnState) -> (d: AcceptDecision)
        ensures
            terminal_state(state) <==> d is Stop,
            d matches AcceptDecision::Bridge { label } ==> (is_fresh_label(
                self.local_id@,
                label@,
            ) && label@ != "DEFAULT"@),
    {
        if is_terminal_state(state) {
            AcceptDecision::Stop
        } else {
            AcceptDecision::Bridge { label: self.create_data_channel() }
        }
    }

    /// Whether the session's connection is established.
    pub fn is_connected(&self, state: PeerConnState) -> (r: bool)
        ensures
            r == (state == PeerConnState::Connected),
    {
        match state {
            PeerConnState::Connected => true,
            _ => false,
        }
    }

    /// Where the listener binds.
    pub fn listen_addr(&self) -> (r: AddrKind)
        ensures
            crate::addr::is_unix_uri(self.addr_uri@) ==> (r matches AddrKind::Unix { path }
                && path@ == self.addr_uri@.skip(7)),
            !crate::addr::is_unix_uri(self.addr_uri@) ==> (r matches AddrKind::Tcp { addr }
                && addr@ == self.addr_uri@),
    {
        classify_addr_uri(self.addr_uri.as_str())
    }
}

} // verus!
