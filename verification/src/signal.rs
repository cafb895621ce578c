//! Signaling client rules.
//!
//! The client keeps one broker session: it announces itself with a retained
//! `online` beacon and an `offline` last will on its own status topic,
//! subscribes to its own signal topic, and turns every broker publish into a
//! typed event.  The functions here compute exactly what is sent and what
//! each publish means; the broker I/O around them performs it.

use vstd::prelude::*;

use crate::config::MqttConfig;
use crate::envelope::{encode_signal_payload, envelope_json, parse_signal_payload};
use crate::message::{peer_status_token, role_name, PeerStatus, SignalPayload, SignalRole};
use crate::text::str_eq;
use crate::topics::{
    get_signal_topic, get_status_topic, lemma_topic_families_disjoint, lemma_topic_text_injective,
    signal_topic_of, split_signal_topic, split_status_topic, status_topic_of, valid_id,
};

verus! {

/// What the signaling client reports to its consumer.
#[derive(Debug, Clone)]
pub enum SignalEvent {
    /// A decoded envelope arrived on the own signal topic.
    SignalMessage(SignalPayload),
    /// A remote published a retained `online` beacon.
    RemoteOnline(String),
    /// A remote went offline, gracefully or through its last will.
    RemoteOffline(String),
    /// The broker acknowledged the connection.
    Connected,
    /// The broker connection is gone; the client stops.
    Disconnected,
}

/// Delivery guarantee requested from the broker.
#[derive(Debug, Clone, Copy, PartialEq, Eq, Structural)]
pub enum QosLevel {
    AtMostOnce,
    AtLeastOnce,
    ExactlyOnce,
}

/// The message the broker publishes on the client's behalf when the client
/// disappears without a goodbye.
#[derive(Debug, Clone)]
pub struct LastWill {
    pub topic: String,
    pub message: String,
    pub qos: QosLevel,
    pub retain: bool,
}

/// Everything a broker session is opened with.
#[derive(Debug, Clone)]
pub struct MqttSessionPlan {
    pub client_id: String,
    pub broker_host: String,
    pub broker_port: u16,
    pub keep_alive: u64,
    pub clean_session: bool,
    pub credentials: Option<(String, String)>,
    pub last_will: LastWill,
}

/// One publication: where, what, and with which delivery flags.
#[derive(Debug, Clone)]
pub struct PublishCommand {
    pub topic: String,
    pub payload: String,
    pub qos: QosLevel,
    pub retain: bool,
}

/// The broker client identifier: the participant's id and its role name,
/// so two sides sharing an id stay distinct at the broker.
pub open spec fn client_id_text(id: Seq<char>, role: SignalRole) -> Seq<char> {
    id + "_"@ + role_name(role)
}

/// Whether `t` is the status topic of `id` under either role.
pub open spec fn is_status_topic_for(t: Seq<char>, id: Seq<char>) -> bool {
    valid_id(id) && (t == status_topic_of(SignalRole::Caller, id) || t == status_topic_of(
        SignalRole::Callee,
        id,
    ))
}

/// Whether `t` is the signal topic of some participant under either role.
pub open spec fn is_signal_topic_any(t: Seq<char>) -> bool {
    exists|id: Seq<char>|
        valid_id(id) && (t == signal_topic_of(SignalRole::Caller, id) || t == signal_topic_of(
            SignalRole::Callee,
            id,
        ))
}

/// A signaling client for one participant under one role.  The broker
/// connection and its event loop live with the runtime that drives this.
#[derive(Debug, Clone)]
pub struct Signal {
    pub id: String,
    pub role: SignalRole,
}

impl Signal {
    /// A client for `id` operating under `role`.
    pub fn new(id: String, role: SignalRole) -> (s: Self)
        ensures
            s.id == id,
            s.role == role,
    {
        Signal { id, role }
    }

    /// The broker session to open: derived client id, the configured host,
    /// port, keepalive and session flag, credentials only when both are
    /// present, and a retained exactly-once `offline` last will on the own
    /// status topic.
    pub fn session_plan(&self, config: &MqttConfig) -> (p: MqttSessionPlan)
        ensures
            p.client_id@ == client_id_text(self.id@, self.role),
            p.broker_host@ == config.broker_host@,
            p.broker_port == config.broker_port,
            p.keep_alive == config.keep_alive,
            p.clean_session == config.clean_session,
            (p.credentials matches Some(cred) && {
                &&& config.username matches Some(u) && cred.0@ == u@
                &&& config.password matches Some(w) && cred.1@ == w@
            }) <==> (config.username is Some && config.password is Some),
            config.username is None || config.password is None ==> p.credentials is None,
            p.last_will.topic@ == status_topic_of(self.role, self.id@),
            p.last_will.message@ == peer_status_token(PeerStatus::Offline),
            p.last_will.qos == QosLevel::ExactlyOnce,
            p.last_will.retain == true,
    {
        let mut client_id = self.id.clone();
        client_id.append("_");
        client_id.append(self.role.name());
        proof {
            assert(client_id@ =~= client_id_text(self.id@, self.role));
        }
        let credentials: Option<(String, String)> = match (&config.username, &config.password) {
            (Some(u), Some(w)) => Some((u.clone(), w.clone())),
            _ => None,
        };
        let last_will = LastWill {
            topic: get_status_topic(self.id.as_str(), self.role),
            message: PeerStatus::Offline.as_str().to_owned(),
            qos: QosLevel::ExactlyOnce,
            retain: true,
        };
        MqttSessionPlan {
            client_id,
            broker_host: config.broker_host.clone(),
            broker_port: config.broker_port,
            keep_alive: config.keep_alive,
            clean_session: config.clean_session,
            credentials,
            last_will,
        }
    }

    /// The retained `online` beacon to publish when the broker acknowledges
    /// the connection.
    pub fn connack_publish(&self) -> (c: PublishCommand)
        ensures
            c.topic@ == status_topic_of(self.role, self.id@),
            c.payload@ == peer_status_token(PeerStatus::Online),
            c.qos == QosLevel::ExactlyOnce,
            c.retain == true,
    {
        PublishCommand {
            topic: get_status_topic(self.id.as_str(), self.role),
            payload: PeerStatus::Online.as_str().to_owned(),
            qos: QosLevel::ExactlyOnce,
            retain: true,
        }
    }

    /// The own signal topic, subscribed right after the `online` beacon.
    pub fn connack_subscribe(&self) -> (t: String)
        ensures
            t@ == signal_topic_of(self.role, self.id@),
    {
        get_signal_topic(self.id.as_str(), self.role)
    }

    /// The remote's status topic, to subscribe with exactly-once delivery;
    /// the broker answers with the retained beacon at once.
    pub fn subscribe_remote_status(&self, remote_id: &str, remote_role: SignalRole) -> (t: String)
        ensures
            t@ == status_topic_of(remote_role, remote_id@),
    {
        get_status_topic(remote_id, remote_role)
    }

    /// The remote's status topic, to unsubscribe from.
    pub fn unsubscribe_remote_status(&self, remote_id: &str, remote_role: SignalRole) -> (t:
        String)
        ensures
            t@ == status_topic_of(remote_role, remote_id@),
    {
        get_status_topic(remote_id, remote_role)
    }

    /// The publication that carries an envelope to the remote: its signal
    /// topic, the canonical JSON text, exactly-once delivery, and never
    /// retained, so stale offers are not replayed to future sessions.
    pub fn publish_signal_message(
        &self,
        remote_id: &str,
        msg: &SignalPayload,
        remote_role: SignalRole,
    ) -> (c: PublishCommand)
        ensures
            c.topic@ == signal_topic_of(remote_role, remote_id@),
            c.payload@ == envelope_json(msg.from_id@, msg.payload@, msg.signal_type),
            c.qos == QosLevel::ExactlyOnce,
            c.retain == false,
    {
        PublishCommand {
            topic: get_signal_topic(remote_id, remote_role),
            payload: encode_signal_payload(msg),
            qos: QosLevel::ExactlyOnce,
            retain: false,
        }
    }
}

/// Turns one broker publish into the event it means: a remote's retained
/// beacon becomes `RemoteOnline` or `RemoteOffline`, a canonical envelope on
/// a signal topic becomes `SignalMessage`, and everything else is dropped.
pub fn handle_publish(topic: &str, payload: &str) -> (r: Option<SignalEvent>)
    ensures
        r matches Some(SignalEvent::RemoteOnline(id)) ==> (is_status_topic_for(topic@, id@)
            && payload@ == peer_status_token(PeerStatus::Online)),
        r matches Some(SignalEvent::RemoteOffline(id)) ==> (is_status_topic_for(topic@, id@)
            && payload@ == peer_status_token(PeerStatus::Offline)),
        r matches Some(SignalEvent::SignalMessage(m)) ==> (is_signal_topic_any(topic@)
            && payload@ == envelope_json(m.from_id@, m.payload@, m.signal_type)),
        !(r matches Some(SignalEvent::Connected)) && !(r matches Some(SignalEvent::Disconnected)),
        forall|id: Seq<char>|
            is_status_topic_for(topic@, id) ==> {
                &&& payload@ == peer_status_token(PeerStatus::Online) ==> (r matches Some(
                    SignalEvent::RemoteOnline(s),
                ) && s@ == id)
                &&& payload@ == peer_status_token(PeerStatus::Offline) ==> (r matches Some(
                    SignalEvent::RemoteOffline(s),
                ) && s@ == id)
                &&& payload@ != peer_status_token(PeerStatus::Online) && payload@
                    != peer_status_token(PeerStatus::Offline) ==> r is None
            },
        is_signal_topic_any(topic@) ==> {
            &&& forall|f: Seq<char>, pl: Seq<char>, ty: crate::message::SignalType|
                payload@ == envelope_json(f, pl, ty) ==> (r matches Some(
                    SignalEvent::SignalMessage(m),
                ) && m.from_id@ == f && m.payload@ == pl && m.signal_type == ty)
            &&& (forall|f: Seq<char>, pl: Seq<char>, ty: crate::message::SignalType|
                payload@ != envelope_json(f, pl, ty)) ==> r is None
        },
        (forall|id: Seq<char>| !is_status_topic_for(topic@, id)) && !is_signal_topic_any(topic@)
            ==> r is None,
{
    proof {
        reveal_strlit("online");
        reveal_strlit("offline");
    }
    let st = split_status_topic(topic);
    match st {
        Some(id) => {
            proof {
                assert(is_status_topic_for(topic@, id@));
                assert forall|id2: Seq<char>|
                    is_status_topic_for(topic@, id2) implies id2 == id@ by {
                    if topic@ == status_topic_of(SignalRole::Caller, id2) {
                        if topic@ == status_topic_of(SignalRole::Caller, id@) {
                            lemma_topic_text_injective(
                                SignalRole::Caller,
                                id2,
                                SignalRole::Caller,
                                id@,
                                "/status"@,
                            );
                        } else {
                            lemma_topic_text_injective(
                                SignalRole::Caller,
                                id2,
                                SignalRole::Callee,
                                id@,
                                "/status"@,
                            );
                        }
                    } else {
                        if topic@ == status_topic_of(SignalRole::Caller, id@) {
                            lemma_topic_text_injective(
                                SignalRole::Callee,
                                id2,
                                SignalRole::Caller,
                                id@,
                                "/status"@,
                            );
                        } else {
                            lemma_topic_text_injective(
                                SignalRole::Callee,
                                id2,
                                SignalRole::Callee,
                                id@,
                                "/status"@,
                            );
                        }
                    }
                }
                assert(!is_signal_topic_any(topic@)) by {
                    if is_signal_topic_any(topic@) {
                        let id2 = choose|id2: Seq<char>|
                            valid_id(id2) && (topic@ == signal_topic_of(SignalRole::Caller, id2)
                                || topic@ == signal_topic_of(SignalRole::Callee, id2));
                        if topic@ == signal_topic_of(SignalRole::Caller, id2) {
                            if topic@ == status_topic_of(SignalRole::Caller, id@) {
                                lemma_topic_families_disjoint(
                                    SignalRole::Caller,
                                    id@,
                                    SignalRole::Caller,
                                    id2,
                                );
                            } else {
                                lemma_topic_families_disjoint(
                                    SignalRole::Callee,
                                    id@,
                                    SignalRole::Caller,
                                    id2,
                                );
                            }
                        } else {
                            if topic@ == status_topic_of(SignalRole::Caller, id@) {
                                lemma_topic_families_disjoint(
                                    SignalRole::Caller,
                                    id@,
                                    SignalRole::Callee,
                                    id2,
                                );
                            } else {
                                lemma_topic_families_disjoint(
                                    SignalRole::Callee,
                                    id@,
                                    SignalRole::Callee,
                                    id2,
                                );
                            }
                        }
                    }
                }
            }
            if str_eq(payload, "online") {
                Some(SignalEvent::RemoteOnline(id))
            } else if str_eq(payload, "offline") {
                Some(SignalEvent::RemoteOffline(id))
            } else {
                None
            }
        },
        None => {
            let sg = split_signal_topic(topic);
            match sg {
                Some(found) => {
                    proof {
                        assert(is_signal_topic_any(topic@)) by {
                            assert(valid_id(found@) && (topic@ == signal_topic_of(
                                SignalRole::Caller,
                                found@,
                            ) || topic@ == signal_topic_of(SignalRole::Callee, found@)));
                        }
                    }
                    match parse_signal_payload(payload) {
                        Some(m) => {
                            proof {
                                assert forall|f: Seq<char>, pl: Seq<char>, ty:
                                    crate::message::SignalType|
                                    payload@ == envelope_json(f, pl, ty) implies (f == m.from_id@
                                    && pl == m.payload@ && ty == m.signal_type) by {
                                    crate::envelope::lemma_envelope_json_injective(
                                        f,
                                        pl,
                                        ty,
                                        m.from_id@,
                                        m.payload@,
                                        m.signal_type,
                                    );
                                }
                            }
                            Some(SignalEvent::SignalMessage(m))
                        },
                        None => None,
                    }
                },
                None => {
                    proof {
                        assert(!is_signal_topic_any(topic@));
                    }
                    None
                },
            }
        },
    }
}

} // verus!
