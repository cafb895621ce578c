//! Coordination layer of a socket-over-WebRTC tunnel.
//!
//! A Portal (caller) accepts local socket connections and forwards each one
//! over its own DataChannel; a Proxy (callee) dials a configured target for
//! each incoming channel.  The two sides discover each other and exchange
//! SDP offers, answers and ICE candidates over an MQTT signaling bus.
//!
//! This crate holds the verified core: the topic codec, the signal envelope
//! codec, the session and bridge decision rules, and the manager state
//! machines.  Broker, socket and peer-connection I/O live outside, driven by
//! the plans and actions these functions return.

mod addr;
mod binder;
mod common;
mod config;
mod envelope;
mod message;
mod numbers;
mod portal;
mod portal_hub;
mod portal_manager;
mod proxy;
mod proxy_manager;
mod session;
mod signal;
mod text;
mod topics;

pub use addr::{classify_addr_uri, is_unix_uri, AddrKind};
pub use binder::{socket_pump_step, PumpAction, SocketRead, BUFFER_SIZE};
pub use common::{
    find_last_at, head_before_colon, is_space, parsed_broker, parsed_turn, strip_turn_scheme,
    tail_after_colon, trim_back, trim_front, MqttArgs, PeerArgs,
};
pub use config::{ConfigError, IceServer, MqttConfig, PeerConfig};
pub use envelope::{
    encode_signal_payload, envelope_json, esc, esc_char, hex_digit, is_plain,
    lemma_envelope_json_injective, lemma_esc_plain, lemma_esc_snoc, parse_signal_payload,
};
pub use message::{
    peer_status_token, role_name, role_token, signal_type_token, PeerStatus, SignalPayload,
    SignalRole, SignalType,
};
pub use numbers::{all_digits, char_digit, dec_digit, dec_int, dec_nat, digits_value,
    is_digit_char, parses_as_u16};
pub use portal::{
    dc_label_text, is_fresh_label, lemma_fresh_label_not_default, AcceptDecision, Portal,
    PortalEvent, PortalSignalAction,
};
pub use portal_hub::{build_addr_uri, build_remote_id, resolve_user_id, CreatePortalRequest,
    CreatePortalResponse, PortalType};
pub use portal_manager::{
    lemma_remove_portal_idempotent, live_sessions_inv, PortalManager, PortalManagerBuilder,
    RemovePortal, SignalStep,
};
pub use proxy::{ChannelAction, Proxy, ProxyEvent, ProxySignalAction};
pub use proxy_manager::{ProxyManager, ProxyManagerBuilder, ProxySignalStep};
pub use session::{active_state, terminal_state, PeerConnState};
pub use signal::{
    client_id_text, handle_publish, is_signal_topic_any, is_status_topic_for, LastWill,
    MqttSessionPlan, PublishCommand, QosLevel, Signal, SignalEvent,
};
pub use topics::{
    get_signal_topic, get_status_topic, lemma_topic_families_disjoint, lemma_topic_text_injective,
    signal_topic_of, split_signal_topic, split_status_topic, status_topic_of, topic_text,
    valid_id,
};

