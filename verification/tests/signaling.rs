use remote_rpc_rs::{
    encode_signal_payload, handle_publish, MqttConfig, QosLevel, Signal, SignalEvent,
    SignalPayload, SignalRole, SignalType,
};

#[test]
fn session_plan_sets_identity_and_last_will() {
    let config = MqttConfig {
        broker_host: "broker.example".to_string(),
        broker_port: 1884,
        username: None,
        password: None,
        keep_alive: 30,
        clean_session: false,
    };
    let signal = Signal::new("p1".to_string(), SignalRole::Caller);
    let plan = signal.session_plan(&config);
    assert_eq!(plan.client_id, "p1_Caller");
    assert_eq!(plan.broker_host, "broker.example");
    assert_eq!(plan.broker_port, 1884);
    assert_eq!(plan.keep_alive, 30);
    assert!(!plan.clean_session);
    assert!(plan.credentials.is_none());
    assert_eq!(plan.last_will.topic, "caller/p1/status");
    assert_eq!(plan.last_will.message, "offline");
    assert_eq!(plan.last_will.qos, QosLevel::ExactlyOnce);
    assert!(plan.last_will.retain);
}

#[test]
fn session_plan_takes_credentials_only_when_complete() {
    let signal = Signal::new("c1".to_string(), SignalRole::Callee);
    let mut config = MqttConfig::default();
    config.username = Some("user".to_string());
    let plan = signal.session_plan(&config);
    assert!(plan.credentials.is_none());
    config.password = Some("pw".to_string());
    let plan = signal.session_plan(&config);
    assert_eq!(plan.credentials, Some(("user".to_string(), "pw".to_string())));
    assert_eq!(plan.client_id, "c1_Callee");
    assert_eq!(plan.last_will.topic, "callee/c1/status");
}

#[test]
fn connack_announces_online_and_subscribes_own_signal() {
    let signal = Signal::new("c1".to_string(), SignalRole::Callee);
    let beacon = signal.connack_publish();
    assert_eq!(beacon.topic, "callee/c1/status");
    assert_eq!(beacon.payload, "online");
    assert_eq!(beacon.qos, QosLevel::ExactlyOnce);
    assert!(beacon.retain);
    assert_eq!(signal.connack_subscribe(), "callee/c1/signal");
}

#[test]
fn publish_signal_message_is_never_retained() {
    let signal = Signal::new("p1".to_string(), SignalRole::Caller);
    let msg = SignalPayload {
        from_id: "p1".to_string(),
        payload: "v=0".to_string(),
        signal_type: SignalType::Offer,
    };
    let cmd = signal.publish_signal_message("c1", &msg, SignalRole::Callee);
    assert_eq!(cmd.topic, "callee/c1/signal");
    assert_eq!(cmd.payload, encode_signal_payload(&msg));
    assert_eq!(cmd.qos, QosLevel::ExactlyOnce);
    assert!(!cmd.retain);
}

#[test]
fn subscription_topics_follow_remote_role() {
    let signal = Signal::new("p1".to_string(), SignalRole::Caller);
    assert_eq!(signal.subscribe_remote_status("c1", SignalRole::Callee), "callee/c1/status");
    assert_eq!(signal.unsubscribe_remote_status("c1", SignalRole::Callee), "callee/c1/status");
}

#[test]
fn liveness_discovery_from_retained_beacon() {
    // A subscriber to the callee's status topic sees the retained beacon and
    // learns the remote is online.
    match handle_publish("callee/c1/status", "online") {
        Some(SignalEvent::RemoteOnline(id)) => assert_eq!(id, "c1"),
        other => panic!("expected RemoteOnline, got {:?}", other),
    }
    match handle_publish("callee/c1/status", "offline") {
        Some(SignalEvent::RemoteOffline(id)) => assert_eq!(id, "c1"),
        other => panic!("expected RemoteOffline, got {:?}", other),
    }
    assert!(handle_publish("callee/c1/status", "onlin").is_none());
    assert!(handle_publish("callee/c1/status", "ONLINE").is_none());
}

#[test]
fn signal_messages_are_decoded_from_own_signal_topic() {
    let msg = SignalPayload {
        from_id: "p1".to_string(),
        payload: "v=0 sdp".to_string(),
        signal_type: SignalType::Offer,
    };
    let text = encode_signal_payload(&msg);
    match handle_publish("callee/c1/signal", &text) {
        Some(SignalEvent::SignalMessage(m)) => {
            assert_eq!(m.from_id, "p1");
            assert_eq!(m.payload, "v=0 sdp");
            assert_eq!(m.signal_type, SignalType::Offer);
        },
        other => panic!("expected SignalMessage, got {:?}", other),
    }
    assert!(handle_publish("callee/c1/signal", "not an envelope").is_none());
}

#[test]
fn unknown_topics_produce_no_event() {
    assert!(handle_publish("some/other/topic", "online").is_none());
    assert!(handle_publish("", "online").is_none());
    assert!(handle_publish("caller/a/b/status", "online").is_none());
}
