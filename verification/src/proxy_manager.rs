//! Proxy manager rules (callee side).
//!
//! The manager owns the signaling client under the callee role and a map
//! from remote id to Proxy session.  Sessions are born from incoming
//! offers; an offer for an id that already has a session replaces it, and
//! the old one is closed (the policy the wire behavior pins down).  A
//! closed report evicts a session only when the observed connection state
//! says it is no longer active, so a transient disconnect that recovered is
//! left alone.

use vstd::hash_map::StringHashMap;
use vstd::prelude::*;

use crate::config::{ConfigError, MqttConfig, PeerConfig};
use crate::envelope::envelope_json;
use crate::message::{SignalPayload, SignalRole, SignalType};
use crate::portal_manager::live_sessions_inv;
use crate::proxy::ProxyEvent;
use crate::session::{active_state, is_active_state, PeerConnState};
use crate::signal::{PublishCommand, QosLevel, Signal, SignalEvent};
use crate::topics::signal_topic_of;

verus! {

/// What the runtime must do after a broker event is handled.
#[derive(Debug, Clone)]
pub enum ProxySignalStep {
    /// Construct a new Proxy session answering this offer, then register it.
    StartProxy { offer: SignalPayload },
    /// Hand the candidate to the session it is addressed to.
    Deliver { msg: SignalPayload },
    /// The broker connection is gone: stop the event loop.
    Exit,
    /// Nothing to do.
    Nothing,
}

/// Builds a `ProxyManager` from its parts.
#[derive(Debug, Clone)]
pub struct ProxyManagerBuilder {
    pub local_id: Option<String>,
    pub mqtt_config: Option<MqttConfig>,
    pub peer_config: Option<PeerConfig>,
    pub target_addr: Option<String>,
}

impl Default for ProxyManagerBuilder {
    /// A builder with nothing set.
    fn default() -> (r: Self)
        ensures
            r.local_id is None,
            r.mqtt_config is None,
            r.peer_config is None,
            r.target_addr is None,
    {
        ProxyManagerBuilder {
            local_id: None,
            mqtt_config: None,
            peer_config: None,
            target_addr: None,
        }
    }
}

impl ProxyManagerBuilder {
    /// Sets the local identity.
    pub fn local_id(self, id: &str) -> (r: Self)
        ensures
            r.local_id matches Some(s) && s@ == id@,
            r.mqtt_config == self.mqtt_config,
            r.peer_config == self.peer_config,
            r.target_addr == self.target_addr,
    {
        ProxyManagerBuilder {
            local_id: Some(id.to_owned()),
            mqtt_config: self.mqtt_config,
            peer_config: self.peer_config,
            target_addr: self.target_addr,
        }
    }

    /// Sets the broker configuration.
    pub fn mqtt(self, config: MqttConfig) -> (r: Self)
        ensures
            r.mqtt_config == Some(config),
            r.local_id == self.local_id,
            r.peer_config == self.peer_config,
            r.target_addr == self.target_addr,
    {
        ProxyManagerBuilder {
            local_id: self.local_id,
            mqtt_config: Some(config),
            peer_config: self.peer_config,
            target_addr: self.target_addr,
        }
    }

    /// Sets the peer-connection configuration.
    pub fn peer(self, config: PeerConfig) -> (r: Self)
        ensures
            r.peer_config == Some(config),
            r.local_id == self.local_id,
            r.mqtt_config == self.mqtt_config,
            r.target_addr == self.target_addr,
    {
        ProxyManagerBuilder {
            local_id: self.local_id,
            mqtt_config: self.mqtt_config,
            peer_config: Some(config),
            target_addr: self.target_addr,
        }
    }

    /// Sets the target service dialed for each incoming channel.
    pub fn target_addr(self, addr: &str) -> (r: Self)
        ensures
            r.target_addr matches Some(s) && s@ == addr@,
            r.local_id == self.local_id,
            r.mqtt_config == self.mqtt_config,
            r.peer_config == self.peer_config,
    {
        ProxyManagerBuilder {
            local_id: self.local_id,
            mqtt_config: self.mqtt_config,
            peer_config: self.peer_config,
            target_addr: Some(addr.to_owned()),
        }
    }

    /// Checks the parts and builds the manager with an empty session map,
    /// plus the broker configuration its signaling session is opened with.
    pub fn finish(self) -> (r: Result<(ProxyManager, MqttConfig), ConfigError>)
        ensures
            self.local_id is None ==> r == Err::<(ProxyManager, MqttConfig), ConfigError>(
                ConfigError::MissingLocalId,
            ),
            self.local_id is Some && self.mqtt_config is None ==> r == Err::<
                (ProxyManager, MqttConfig),
                ConfigError,
            >(ConfigError::MissingMqttConfig),
            self.local_id is Some && self.mqtt_config is Some && self.target_addr is None ==> r
                == Err::<(ProxyManager, MqttConfig), ConfigError>(ConfigError::MissingTargetAddr),
            self.local_id matches Some(id) ==> self.mqtt_config matches Some(mq)
                ==> self.target_addr matches Some(ta) ==> (r matches Ok(p) && p.0.local_id == id
                && p.0.signal.id == id && p.0.signal.role == SignalRole::Callee
                && p.0.target_addr == ta && p.0.proxies@ == Map::<
                Seq<char>,
                PeerConnState,
            >::empty() && p.1 == mq && (self.peer_config matches Some(pc) ==> p.0.config == pc)),
    {
        let local_id = match self.local_id {
            Some(id) => id,
            None => {
                return Err(ConfigError::MissingLocalId);
            },
        };
        let mqtt_config = match self.mqtt_config {
            Some(mq) => mq,
            None => {
                return Err(ConfigError::MissingMqttConfig);
            },
        };
        let peer_config = match self.peer_config {
            Some(pc) => pc,
            None => Default::default(),
        };
        let target_addr = match self.target_addr {
            Some(ta) => ta,
            None => {
                return Err(ConfigError::MissingTargetAddr);
            },
        };
        let signal = Signal::new(local_id.clone(), SignalRole::Callee);
        let manager = ProxyManager {
            local_id,
            signal,
            config: peer_config,
            target_addr,
            proxies: StringHashMap::new(),
        };
        Ok((manager, mqtt_config))
    }
}

/// The callee-side manager: one signaling client, the target address, and
/// one Proxy session per remote id.
pub struct ProxyManager {
    pub local_id: String,
    pub signal: Signal,
    pub config: PeerConfig,
    pub target_addr: String,
    pub proxies: StringHashMap<PeerConnState>,
}

impl ProxyManager {
    /// A builder for the manager.
    pub fn builder() -> (r: ProxyManagerBuilder)
        ensures
            r.local_id is None,
            r.mqtt_config is None,
            r.peer_config is None,
            r.target_addr is None,
    {
        Default::default()
    }

    /// How many sessions the manager tracks.
    pub fn connection_count(&self) -> (r: usize)
        ensures
            r == self.proxies@.len(),
    {
        self.proxies.len()
    }

    /// Tracks a freshly constructed session, replacing any session the same
    /// remote had before: the replacement policy for duplicate offers.
    pub fn register_proxy(&mut self, remote_id: &str)
        requires
            live_sessions_inv(old(self).proxies@),
        ensures
            final(self).proxies@ == old(self).proxies@.insert(remote_id@, PeerConnState::New),
            live_sessions_inv(final(self).proxies@),
            final(self).local_id == old(self).local_id,
            final(self).signal == old(self).signal,
            final(self).config == old(self).config,
            final(self).target_addr == old(self).target_addr,
    {
        self.proxies.insert(remote_id.to_owned(), PeerConnState::New);
    }

    /// Handles one broker event: only signal messages and losing the broker
    /// matter to a proxy manager.
    pub fn handle_signal_event(&mut self, event: SignalEvent) -> (r: ProxySignalStep)
        requires
            live_sessions_inv(old(self).proxies@),
        ensures
            live_sessions_inv(final(self).proxies@),
            final(self).proxies@ == old(self).proxies@,
            final(self).local_id == old(self).local_id,
            final(self).signal == old(self).signal,
            final(self).config == old(self).config,
            final(self).target_addr == old(self).target_addr,
            event matches SignalEvent::SignalMessage(m) ==> {
                &&& m.signal_type == SignalType::Offer ==> (r
                    matches ProxySignalStep::StartProxy { offer } && offer == m)
                &&& m.signal_type == SignalType::Candidate && old(self).proxies@.contains_key(
                    m.from_id@,
                ) ==> (r matches ProxySignalStep::Deliver { msg } && msg == m)
                &&& m.signal_type == SignalType::Candidate && !old(self).proxies@.contains_key(
                    m.from_id@,
                ) ==> r is Nothing
                &&& m.signal_type == SignalType::Answer ==> r is Nothing
            },
            event is Connected ==> r is Nothing,
            event is Disconnected ==> r is Exit,
            event matches SignalEvent::RemoteOnline(id) ==> r is Nothing,
            event matches SignalEvent::RemoteOffline(id) ==> r is Nothing,
    {
        match event {
            SignalEvent::SignalMessage(m) => self.handle_signal_message(m),
            SignalEvent::Connected => ProxySignalStep::Nothing,
            SignalEvent::Disconnected => ProxySignalStep::Exit,
            SignalEvent::RemoteOnline(_) => ProxySignalStep::Nothing,
            SignalEvent::RemoteOffline(_) => ProxySignalStep::Nothing,
        }
    }

    /// Routes one signal message: an offer starts a new session for its
    /// sender, a candidate goes to the sender's session if one exists, and
    /// an answer means nothing to a callee.
    pub fn handle_signal_message(&mut self, msg: SignalPayload) -> (r: ProxySignalStep)
        requires
            live_sessions_inv(old(self).proxies@),
        ensures
            live_sessions_inv(final(self).proxies@),
            final(self).proxies@ == old(self).proxies@,
            final(self).local_id == old(self).local_id,
            final(self).signal == old(self).signal,
            final(self).config == old(self).config,
            final(self).target_addr == old(self).target_addr,
            msg.signal_type == SignalType::Offer ==> (r
                matches ProxySignalStep::StartProxy { offer } && offer == msg),
            msg.signal_type == SignalType::Candidate && old(self).proxies@.contains_key(
                msg.from_id@,
            ) ==> (r matches ProxySignalStep::Deliver { msg: m } && m == msg),
            msg.signal_type == SignalType::Candidate && !old(self).proxies@.contains_key(
                msg.from_id@,
            ) ==> r is Nothing,
            msg.signal_type == SignalType::Answer ==> r is Nothing,
    {
        match msg.signal_type {
            SignalType::Offer => ProxySignalStep::StartProxy { offer: msg },
            SignalType::Candidate => {
                if self.proxies.contains_key(msg.from_id.as_str()) {
                    ProxySignalStep::Deliver { msg }
                } else {
                    ProxySignalStep::Nothing
                }
            },
            SignalType::Answer => ProxySignalStep::Nothing,
        }
    }

    /// Handles one session event: answers and candidates are published to
    /// the remote under its caller role; a closed report leaves the map to
    /// `try_remove_proxy`, which sees the observed connection state.
    pub fn handle_proxy_event(&mut self, event: ProxyEvent) -> (r: Option<PublishCommand>)
        requires
            live_sessions_inv(old(self).proxies@),
        ensures
            live_sessions_inv(final(self).proxies@),
            final(self).proxies@ == old(self).proxies@,
            final(self).local_id == old(self).local_id,
            final(self).signal == old(self).signal,
            final(self).config == old(self).config,
            final(self).target_addr == old(self).target_addr,
            event matches ProxyEvent::Answer { remote_id, payload } ==> (r matches Some(cmd)
                && cmd.topic@ == signal_topic_of(SignalRole::Caller, remote_id@) && cmd.payload@
                == envelope_json(payload.from_id@, payload.payload@, payload.signal_type)
                && cmd.qos == QosLevel::ExactlyOnce && cmd.retain == false),
            event matches ProxyEvent::Candidate { remote_id, payload } ==> (r matches Some(cmd)
                && cmd.topic@ == signal_topic_of(SignalRole::Caller, remote_id@) && cmd.payload@
                == envelope_json(payload.from_id@, payload.payload@, payload.signal_type)
                && cmd.qos == QosLevel::ExactlyOnce && cmd.retain == false),
            event matches ProxyEvent::Connected { remote_id } ==> r is None,
            event matches ProxyEvent::Closed { remote_id } ==> r is None,
    {
        match event {
            ProxyEvent::Answer { remote_id, payload } => {
                Some(self.signal.publish_signal_message(
                    remote_id.as_str(),
                    &payload,
                    SignalRole::Caller,
                ))
            },
            ProxyEvent::Candidate { remote_id, payload } => {
                Some(self.signal.publish_signal_message(
                    remote_id.as_str(),
                    &payload,
                    SignalRole::Caller,
                ))
            },
            ProxyEvent::Connected { remote_id: _ } => None,
            ProxyEvent::Closed { remote_id: _ } => None,
        }
    }

    /// Evicts a session after a closed report, but only when the observed
    /// connection state says it is no longer active: a stray transient that
    /// recovered keeps its session.
    pub fn try_remove_proxy(&mut self, remote_id: &str, observed: PeerConnState) -> (removed:
        bool)
        requires
            live_sessions_inv(old(self).proxies@),
        ensures
            live_sessions_inv(final(self).proxies@),
            final(self).local_id == old(self).local_id,
            final(self).signal == old(self).signal,
            final(self).config == old(self).config,
            final(self).target_addr == old(self).target_addr,
            removed == (old(self).proxies@.contains_key(remote_id@) && !active_state(observed)),
            removed ==> final(self).proxies@ == old(self).proxies@.remove(remote_id@),
            !removed ==> final(self).proxies@ == old(self).proxies@,
    {
        if self.proxies.contains_key(remote_id) {
            if !is_active_state(observed) {
                self.proxies.remove(remote_id);
                return true;
            }
        }
        false
    }
}

} // verus!
