//! Proxy session rules (callee side).
//!
//! A Proxy owns one peer connection towards one remote identity and dials
//! the configured target service once for every DataChannel the remote
//! opens.  The control channel is never bridged.

use vstd::prelude::*;

use crate::addr::{classify_addr_uri, AddrKind};
use crate::config::PeerConfig;
use crate::message::{SignalPayload, SignalType};
use crate::session::{active_state, is_active_state, terminal_state, PeerConnState};
use crate::text::str_eq;

verus! {

/// What a Proxy session reports to its manager.
#[derive(Debug, Clone)]
pub enum ProxyEvent {
    Candidate { remote_id: String, payload: SignalPayload },
    Answer { remote_id: String, payload: SignalPayload },
    Connected { remote_id: String },
    Closed { remote_id: String },
}

/// What to do with an incoming signal message.
#[derive(Debug, Clone)]
pub enum ProxySignalAction {
    /// Add the payload as a remote ICE candidate.
    AddIceCandidate { candidate: String },
    /// A Proxy answers exactly one offer, at construction; anything else is
    /// ignored.
    Ignore,
}

/// What to do with a DataChannel the remote opened.
#[derive(Debug, Clone)]
pub enum ChannelAction {
    /// Dial the target and bridge the opened socket to the channel.
    Dial { target: AddrKind },
    /// The control channel: never bridged.
    Ignore,
}

/// A Proxy session: the callee-side endpoint for one remote identity.
/// `addr_uri` is the target service dialed for each incoming channel.
#[derive(Debug, Clone)]
pub struct Proxy {
    pub local_id: String,
    pub remote_id: String,
    pub addr_uri: String,
    pub config: PeerConfig,
}

impl Proxy {
    /// A session record for one remote identity.
    pub fn new(local_id: String, remote_id: String, addr_uri: String, config: PeerConfig) -> (p:
        Self)
        ensures
            p.local_id == local_id,
            p.remote_id == remote_id,
            p.addr_uri == addr_uri,
            p.config == config,
    {
        Proxy { local_id, remote_id, addr_uri, config }
    }

    /// The answer event to publish after the local description is set.
    pub fn answer_event(&self, sdp: String) -> (e: ProxyEvent)
        ensures
            e matches ProxyEvent::Answer { remote_id, payload } && remote_id@ == self.remote_id@
                && payload.from_id@ == self.local_id@ && payload.payload@ == sdp@
                && payload.signal_type == SignalType::Answer,
    {
        ProxyEvent::Answer {
            remote_id: self.remote_id.clone(),
            payload: SignalPayload {
                from_id: self.local_id.clone(),
                payload: sdp,
                signal_type: SignalType::Answer,
            },
        }
    }

    /// The candidate event to publish for one gathered ICE candidate.
    pub fn candidate_event(&self, candidate: String) -> (e: ProxyEvent)
        ensures
            e matches ProxyEvent::Candidate { remote_id, payload } && remote_id@
                == self.remote_id@ && payload.from_id@ == self.local_id@ && payload.payload@
                == candidate@ && payload.signal_type == SignalType::Candidate,
    {
        ProxyEvent::Candidate {
            remote_id: self.remote_id.clone(),
            payload: SignalPayload {
                from_id: self.local_id.clone(),
                payload: candidate,
                signal_type: SignalType::Candidate,
            },
        }
    }

    /// The event a connection state change raises, mirroring the Portal
    /// side.
    pub fn state_event(&self, state: PeerConnState) -> (e: Option<ProxyEvent>)
        ensures
            state == PeerConnState::Connected ==> (e matches Some(
                ProxyEvent::Connected { remote_id },
            ) && remote_id@ == self.remote_id@),
            state == PeerConnState::Disconnected || terminal_state(state) ==> (e matches Some(
                ProxyEvent::Closed { remote_id },
            ) && remote_id@ == self.remote_id@),
            state == PeerConnState::New || state == PeerConnState::Connecting ==> e is None,
    {
        match state {
            PeerConnState::Connected => Some(
                ProxyEvent::Connected { remote_id: self.remote_id.clone() },
            ),
            PeerConnState::Disconnected | PeerConnState::Failed | PeerConnState::Closed => Some(
                ProxyEvent::Closed { remote_id: self.remote_id.clone() },
            ),
            _ => None,
        }
    }

    /// Whether a state change fires the connected-notifier.
    pub fn notifies_connected(&self, state: PeerConnState) -> (r: bool)
        ensures
            r == (state == PeerConnState::Connected),
    {
        match state {
            PeerConnState::Connected => true,
            _ => false,
        }
    }

    /// What to do with a signal message from the remote: only candidates are
    /// accepted; a late offer on a live session is the manager's business
    /// and is ignored here.
    pub fn handle_signal_message(&self, msg: SignalPayload) -> (a: ProxySignalAction)
        ensures
            msg.signal_type == SignalType::Candidate ==> (a
                matches ProxySignalAction::AddIceCandidate { candidate } && candidate@
                == msg.payload@),
            msg.signal_type != SignalType::Candidate ==> a is Ignore,
    {
        match msg.signal_type {
            SignalType::Candidate => ProxySignalAction::AddIceCandidate {
                candidate: msg.payload,
            },
            _ => ProxySignalAction::Ignore,
        }
    }

    /// What to do with a DataChannel the remote opened: the `DEFAULT`
    /// control channel is left alone, every other label dials the target.
    pub fn data_channel_action(&self, label: &str) -> (a: ChannelAction)
        ensures
            label@ == "DEFAULT"@ <==> a is Ignore,
            label@ != "DEFAULT"@ ==> (a matches ChannelAction::Dial { target } && (
            crate::addr::is_unix_uri(self.addr_uri@) ==> (target matches AddrKind::Unix { path }
                && path@ == self.addr_uri@.skip(7))) && (!crate::addr::is_unix_uri(
                self.addr_uri@,
            ) ==> (target matches AddrKind::Tcp { addr } && addr@ == self.addr_uri@))),
    {
        if str_eq(label, "DEFAULT") {
            ChannelAction::Ignore
        } else {
            ChannelAction::Dial { target: classify_addr_uri(self.addr_uri.as_str()) }
        }
    }

    /// Whether the session's connection is established.
    pub fn is_connected(&self, state: PeerConnState) -> (r: bool)
        ensures
            r == (state == PeerConnState::Connected),
    {
        match state {
            PeerConnState::Connected => true,
            _ => false,
        }
    }

    /// Whether the session may still carry traffic.  Consulted when a
    /// `Closed` event arrives, to decide whether the session can be evicted.
    pub fn is_active(&self, state: PeerConnState) -> (r: bool)
        ensures
            r == active_state(state),
    {
        is_active_state(state)
    }
}

} // verus!
