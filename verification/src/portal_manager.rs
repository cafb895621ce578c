//! Portal manager rules (caller side).
//!
//! The manager owns the signaling client under the caller role, a map from
//! remote id to Portal session, and a map of pending online notifiers.  Its
//! event loop selects on broker events and session events; each handler here
//! returns what the runtime must do and updates the session map, keeping the
//! invariant that no tracked session is terminal: a session stands in the
//! map exactly until the event that reports its connection lost.

use vstd::hash_map::StringHashMap;
use vstd::prelude::*;

use crate::config::{ConfigError, MqttConfig, PeerConfig};
use crate::envelope::envelope_json;
use crate::message::{SignalPayload, SignalRole};
use crate::portal::PortalEvent;
use crate::session::{terminal_state, PeerConnState};
use crate::signal::{PublishCommand, QosLevel, Signal, SignalEvent};
use crate::topics::{signal_topic_of, status_topic_of};

verus! {

/// No session the map tracks has reported a terminal connection: the
/// eviction handlers run on the very event that reports one.
pub open spec fn live_sessions_inv(m: Map<Seq<char>, PeerConnState>) -> bool {
    forall|id: Seq<char>| #[trigger] m.dom().contains(id) ==> !terminal_state(m[id])
}

/// Law: a second removal of the same key changes nothing, and the key is
/// gone after the first.  With the `remove_portal` contract this says the
/// call is idempotent.
pub proof fn lemma_remove_portal_idempotent(m: Map<Seq<char>, PeerConnState>, id: Seq<char>)
    ensures
        m.remove(id).remove(id) =~= m.remove(id),
        !m.remove(id).dom().contains(id),
{
}

/// What the runtime must do after a broker event is handled.
#[derive(Debug, Clone)]
pub enum SignalStep {
    /// Wake the pending online notifier of this remote.
    Notify { remote_id: String },
    /// Hand the message to the session it is addressed to.
    Deliver { msg: SignalPayload },
    /// The broker connection is gone: stop the event loop.
    Exit,
    /// Nothing to do.
    Nothing,
}

/// What `remove_portal` leaves for the runtime: whether a session was
/// removed and must be closed, and the status topic to unsubscribe from.
#[derive(Debug, Clone)]
pub struct RemovePortal {
    pub existed: bool,
    pub unsubscribe_topic: String,
}

/// Builds a `PortalManager` from its parts.
#[derive(Debug, Clone)]
pub struct PortalManagerBuilder {
    pub local_id: Option<String>,
    pub mqtt_config: Option<MqttConfig>,
    pub peer_config: Option<PeerConfig>,
}

impl Default for PortalManagerBuilder {
    /// A builder with nothing set.
    fn default() -> (r: Self)
        ensures
            r.local_id is None,
            r.mqtt_config is None,
            r.peer_config is None,
    {
        PortalManagerBuilder { local_id: None, mqtt_config: None, peer_config: None }
    }
}

impl PortalManagerBuilder {
    /// Sets the local identity.
    pub fn local_id(self, id: &str) -> (r: Self)
        ensures
            r.local_id matches Some(s) && s@ == id@,
            r.mqtt_config == self.mqtt_config,
            r.peer_config == self.peer_config,
    {
        PortalManagerBuilder {
            local_id: Some(id.to_owned()),
            mqtt_config: self.mqtt_config,
            peer_config: self.peer_config,
        }
    }

    /// Sets the broker configuration.
    pub fn mqtt(self, config: MqttConfig) -> (r: Self)
        ensures
            r.mqtt_config == Some(config),
            r.local_id == self.local_id,
            r.peer_config == self.peer_config,
    {
        PortalManagerBuilder {
            local_id: self.local_id,
            mqtt_config: Some(config),
            peer_config: self.peer_config,
        }
    }

    /// Sets the peer-connection configuration.
    pub fn peer(self, config: PeerConfig) -> (r: Self)
        ensures
            r.peer_config == Some(config),
            r.local_id == self.local_id,
            r.mqtt_config == self.mqtt_config,
    {
        PortalManagerBuilder {
            local_id: self.local_id,
            mqtt_config: self.mqtt_config,
            peer_config: Some(config),
        }
    }

    /// Checks the parts and builds the manager with empty maps, plus the
    /// broker configuration its signaling session is opened with.  The local
    /// id and the broker configuration are required; the peer configuration
    /// defaults.
    pub fn finish(self) -> (r: Result<(PortalManager, MqttConfig), ConfigError>)
        ensures
            self.local_id is None ==> r == Err::<(PortalManager, MqttConfig), ConfigError>(
                ConfigError::MissingLocalId,
            ),
            self.local_id is Some && self.mqtt_config is None ==> r == Err::<
                (PortalManager, MqttConfig),
                ConfigError,
            >(ConfigError::MissingMqttConfig),
            self.local_id matches Some(id) ==> self.mqtt_config matches Some(mq) ==> (r
                matches Ok(p) && p.0.local_id == id && p.0.signal.id == id && p.0.signal.role
                == SignalRole::Caller && p.0.portals@ == Map::<Seq<char>, PeerConnState>::empty()
                && p.0.online_notifiers@ == Map::<Seq<char>, bool>::empty() && p.1 == mq && (
            self.peer_config matches Some(pc) ==> p.0.config == pc)),
    {
        let local_id = match self.local_id {
            Some(id) => id,
            None => {
                return Err(ConfigError::MissingLocalId);
            },
        };
        let mqtt_config = match self.mqtt_config {
            Some(mq) => mq,
            None => {
                return Err(ConfigError::MissingMqttConfig);
            },
        };
        let peer_config = match self.peer_config {
            Some(pc) => pc,
            None => Default::default(),
        };
        let signal = Signal::new(local_id.clone(), SignalRole::Caller);
        let manager = PortalManager {
            local_id,
            signal,
            config: peer_config,
            portals: StringHashMap::new(),
            online_notifiers: StringHashMap::new(),
        };
        Ok((manager, mqtt_config))
    }
}

/// The caller-side manager: one signaling client, one Portal session per
/// remote id, and the pending online notifiers.
pub struct PortalManager {
    pub local_id: String,
    pub signal: Signal,
    pub config: PeerConfig,
    pub portals: StringHashMap<PeerConnState>,
    pub online_notifiers: StringHashMap<bool>,
}

impl PortalManager {
    /// A builder for the manager.
    pub fn builder() -> (r: PortalManagerBuilder)
        ensures
            r.local_id is None,
            r.mqtt_config is None,
            r.peer_config is None,
    {
        Default::default()
    }

    /// Whether a session for this remote already exists, in which case
    /// `create_portal` reuses it.
    pub fn lookup_portal(&self, remote_id: &str) -> (r: bool)
        ensures
            r == self.portals@.contains_key(remote_id@),
    {
        self.portals.contains_key(remote_id)
    }

    /// Tracks a freshly constructed session.  The new entry is not
    /// terminal, so the map invariant is kept.
    pub fn register_portal(&mut self, remote_id: &str)
        requires
            live_sessions_inv(old(self).portals@),
        ensures
            final(self).portals@ == old(self).portals@.insert(remote_id@, PeerConnState::New),
            live_sessions_inv(final(self).portals@),
            final(self).local_id == old(self).local_id,
            final(self).signal == old(self).signal,
            final(self).config == old(self).config,
            final(self).online_notifiers@ == old(self).online_notifiers@,
    {
        self.portals.insert(remote_id.to_owned(), PeerConnState::New);
    }

    /// Rolls a failed `create_portal` back: the entry inserted before the
    /// connection wait is dropped again.
    pub fn connect_failed(&mut self, remote_id: &str)
        requires
            live_sessions_inv(old(self).portals@),
        ensures
            final(self).portals@ == old(self).portals@.remove(remote_id@),
            live_sessions_inv(final(self).portals@),
            final(self).local_id == old(self).local_id,
            final(self).signal == old(self).signal,
            final(self).config == old(self).config,
            final(self).online_notifiers@ == old(self).online_notifiers@,
    {
        self.portals.remove(remote_id);
    }

    /// Registers a pending online notifier for this remote and returns the
    /// status topic to subscribe to (the remote acts as callee); the
    /// retained beacon answers the subscription at once.
    pub fn register_online_notifier(&mut self, remote_id: &str) -> (t: String)
        ensures
            final(self).online_notifiers@ == old(self).online_notifiers@.insert(remote_id@, true),
            t@ == status_topic_of(SignalRole::Callee, remote_id@),
            final(self).local_id == old(self).local_id,
            final(self).signal == old(self).signal,
            final(self).config == old(self).config,
            final(self).portals@ == old(self).portals@,
    {
        self.online_notifiers.insert(remote_id.to_owned(), true);
        self.signal.subscribe_remote_status(remote_id, SignalRole::Callee)
    }

    /// Drops the pending notifier after the online wait timed out.
    pub fn online_timeout(&mut self, remote_id: &str)
        ensures
            final(self).online_notifiers@ == old(self).online_notifiers@.remove(remote_id@),
            final(self).local_id == old(self).local_id,
            final(self).signal == old(self).signal,
            final(self).config == old(self).config,
            final(self).portals@ == old(self).portals@,
    {
        self.online_notifiers.remove(remote_id);
    }

    /// Removes a session and its notifier.  Returns whether a session was
    /// there to close, and the status topic to unsubscribe from.  Calling
    /// this twice is a no-op the second time.
    pub fn remove_portal(&mut self, remote_id: &str) -> (r: RemovePortal)
        requires
            live_sessions_inv(old(self).portals@),
        ensures
            final(self).portals@ == old(self).portals@.remove(remote_id@),
            final(self).online_notifiers@ == old(self).online_notifiers@.remove(remote_id@),
            live_sessions_inv(final(self).portals@),
            r.existed == old(self).portals@.contains_key(remote_id@),
            r.unsubscribe_topic@ == status_topic_of(SignalRole::Callee, remote_id@),
            final(self).local_id == old(self).local_id,
            final(self).signal == old(self).signal,
            final(self).config == old(self).config,
    {
        let existed = self.portals.contains_key(remote_id);
        self.portals.remove(remote_id);
        let unsubscribe_topic = self.signal.unsubscribe_remote_status(
            remote_id,
            SignalRole::Callee,
        );
        self.online_notifiers.remove(remote_id);
        RemovePortal { existed, unsubscribe_topic }
    }

    /// Handles one broker event: a remote's beacon wakes its notifier or
    /// evicts its session, a signal message is routed to the session it
    /// came from, and losing the broker stops the manager.
    pub fn handle_signal_event(&mut self, event: SignalEvent) -> (r: SignalStep)
        requires
            live_sessions_inv(old(self).portals@),
        ensures
            live_sessions_inv(final(self).portals@),
            final(self).local_id == old(self).local_id,
            final(self).signal == old(self).signal,
            final(self).config == old(self).config,
            final(self).online_notifiers@ == old(self).online_notifiers@,
            event matches SignalEvent::RemoteOnline(id) ==> {
                &&& final(self).portals@ == old(self).portals@
                &&& old(self).online_notifiers@.contains_key(id@) ==> (r
                    matches SignalStep::Notify { remote_id } && remote_id@ == id@)
                &&& !old(self).online_notifiers@.contains_key(id@) ==> r is Nothing
            },
            event matches SignalEvent::RemoteOffline(id) ==> final(self).portals@ == old(
                self,
            ).portals@.remove(id@) && r is Nothing,
            event matches SignalEvent::SignalMessage(m) ==> {
                &&& final(self).portals@ == old(self).portals@
                &&& old(self).portals@.contains_key(m.from_id@) ==> (r
                    matches SignalStep::Deliver { msg } && msg == m)
                &&& !old(self).portals@.contains_key(m.from_id@) ==> r is Nothing
            },
            event is Connected ==> final(self).portals@ == old(self).portals@ && r is Nothing,
            event is Disconnected ==> final(self).portals@ == old(self).portals@ && r is Exit,
    {
        match event {
            SignalEvent::RemoteOnline(id) => {
                if self.online_notifiers.contains_key(id.as_str()) {
                    SignalStep::Notify { remote_id: id }
                } else {
                    SignalStep::Nothing
                }
            },
            SignalEvent::RemoteOffline(id) => {
                self.portals.remove(id.as_str());
                SignalStep::Nothing
            },
            SignalEvent::SignalMessage(m) => {
                if self.portals.contains_key(m.from_id.as_str()) {
                    SignalStep::Deliver { msg: m }
                } else {
                    SignalStep::Nothing
                }
            },
            SignalEvent::Connected => SignalStep::Nothing,
            SignalEvent::Disconnected => SignalStep::Exit,
        }
    }

    /// Handles one session event: offers and candidates are published to
    /// the remote under its callee role, a connected report is noted, and a
    /// closed report evicts the session.
    pub fn handle_portal_event(&mut self, event: PortalEvent) -> (r: Option<PublishCommand>)
        requires
            live_sessions_inv(old(self).portals@),
        ensures
            live_sessions_inv(final(self).portals@),
            final(self).local_id == old(self).local_id,
            final(self).signal == old(self).signal,
            final(self).config == old(self).config,
            final(self).online_notifiers@ == old(self).online_notifiers@,
            event matches PortalEvent::Offer { remote_id, payload } ==> {
                &&& final(self).portals@ == old(self).portals@
                &&& r matches Some(cmd) && cmd.topic@ == signal_topic_of(
                    SignalRole::Callee,
                    remote_id@,
                ) && cmd.payload@ == envelope_json(payload.from_id@, payload.payload@,
                payload.signal_type) && cmd.qos == QosLevel::ExactlyOnce && cmd.retain == false
            },
            event matches PortalEvent::Candidate { remote_id, payload } ==> {
                &&& final(self).portals@ == old(self).portals@
                &&& r matches Some(cmd) && cmd.topic@ == signal_topic_of(
                    SignalRole::Callee,
                    remote_id@,
                ) && cmd.payload@ == envelope_json(payload.from_id@, payload.payload@,
                payload.signal_type) && cmd.qos == QosLevel::ExactlyOnce && cmd.retain == false
            },
            event matches PortalEvent::Connected { remote_id } ==> final(self).portals@ == old(
                self,
            ).portals@ && r is None,
            event matches PortalEvent::Closed { remote_id } ==> final(self).portals@ == old(
                self,
            ).portals@.remove(remote_id@) && r is None,
    {
        match event {
            PortalEvent::Offer { remote_id, payload } => {
                Some(self.signal.publish_signal_message(
                    remote_id.as_str(),
                    &payload,
                    SignalRole::Callee,
                ))
            },
            PortalEvent::Candidate { remote_id, payload } => {
                Some(self.signal.publish_signal_message(
                    remote_id.as_str(),
                    &payload,
                    SignalRole::Callee,
                ))
            },
            PortalEvent::Connected { remote_id: _ } => None,
            PortalEvent::Closed { remote_id } => {
                self.portals.remove(remote_id.as_str());
                None
            },
        }
    }
}

} // verus!
