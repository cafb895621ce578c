use remote_rpc_rs::{
    encode_signal_payload, handle_publish, ConfigError, MqttConfig, PeerConfig, PeerConnState,
    Portal, PortalEvent, PortalManager, PortalSignalAction, Proxy, ProxyManager, ProxySignalStep,
    SignalEvent, SignalStep, SignalType,
};

fn portal_manager(local_id: &str) -> PortalManager {
    let (manager, _mqtt) = PortalManager::builder()
        .local_id(local_id)
        .mqtt(MqttConfig::default())
        .peer(PeerConfig::default())
        .finish()
        .expect("complete builder");
    manager
}

fn proxy_manager(local_id: &str, target: &str) -> ProxyManager {
    let (manager, _mqtt) = ProxyManager::builder()
        .local_id(local_id)
        .mqtt(MqttConfig::default())
        .peer(PeerConfig::default())
        .target_addr(target)
        .finish()
        .expect("complete builder");
    manager
}

#[test]
fn builders_demand_their_parts() {
    assert!(matches!(
        PortalManager::builder().finish(),
        Err(ConfigError::MissingLocalId)
    ));
    assert!(matches!(
        PortalManager::builder().local_id("p1").finish(),
        Err(ConfigError::MissingMqttConfig)
    ));
    assert!(matches!(
        ProxyManager::builder().local_id("c1").mqtt(MqttConfig::default()).finish(),
        Err(ConfigError::MissingTargetAddr)
    ));
    let (manager, mqtt) = ProxyManager::builder()
        .local_id("c1")
        .mqtt(MqttConfig::default())
        .target_addr("127.0.0.1:19000")
        .finish()
        .expect("complete builder");
    assert_eq!(manager.local_id, "c1");
    assert_eq!(manager.target_addr, "127.0.0.1:19000");
    assert_eq!(manager.connection_count(), 0);
    assert_eq!(mqtt.broker_host, "localhost");
}

#[test]
fn offer_answer_candidate_exchange() {
    // Portal p1 and Proxy c1 negotiate through their managers: the offer,
    // the answer and the candidates travel as published envelopes on the
    // peer's signal topics.
    let mut pm = portal_manager("p1");
    let mut xm = proxy_manager("c1", "127.0.0.1:19000");
    let portal = Portal::new(
        "p1".to_string(),
        "c1".to_string(),
        "127.0.0.1:19001".to_string(),
        PeerConfig::default(),
    );
    let proxy = Proxy::new(
        "c1".to_string(),
        "p1".to_string(),
        "127.0.0.1:19000".to_string(),
        PeerConfig::default(),
    );

    // The Portal emits its offer; the manager publishes it to the callee.
    pm.register_portal("c1");
    let offer_event = portal.offer_event("offer_sdp".to_string());
    let cmd = pm.handle_portal_event(offer_event).expect("offers are published");
    assert_eq!(cmd.topic, "callee/c1/signal");
    assert!(!cmd.retain);

    // The Proxy manager receives it on its own signal topic and starts a
    // session for the sender.
    let event = handle_publish(&cmd.topic, &cmd.payload).expect("canonical envelope");
    let offer = match xm.handle_signal_event(event) {
        ProxySignalStep::StartProxy { offer } => offer,
        other => panic!("an offer must start a session, got {:?}", other),
    };
    assert_eq!(offer.from_id, "p1");
    assert_eq!(offer.payload, "offer_sdp");
    assert_eq!(offer.signal_type, SignalType::Offer);
    xm.register_proxy(&offer.from_id);
    assert_eq!(xm.connection_count(), 1);

    // The Proxy answers; its manager publishes to the caller.
    let answer_event = proxy.answer_event("answer_sdp".to_string());
    let cmd = xm.handle_proxy_event(answer_event).expect("answers are published");
    assert_eq!(cmd.topic, "caller/p1/signal");
    assert!(!cmd.retain);

    // The Portal manager routes the answer to the session it came from.
    let event = handle_publish(&cmd.topic, &cmd.payload).expect("canonical envelope");
    let msg = match pm.handle_signal_event(event) {
        SignalStep::Deliver { msg } => msg,
        other => panic!("the answer must reach the session, got {:?}", other),
    };
    match portal.handle_signal_message(msg) {
        PortalSignalAction::SetRemoteAnswer { sdp } => assert_eq!(sdp, "answer_sdp"),
        other => panic!("expected SetRemoteAnswer, got {:?}", other),
    }

    // A late candidate from the Portal reaches the Proxy's session.
    let cand_event = portal.candidate_event("candidate:1 udp".to_string());
    let cmd = pm.handle_portal_event(cand_event).expect("candidates are published");
    let event = handle_publish(&cmd.topic, &cmd.payload).expect("canonical envelope");
    match xm.handle_signal_event(event) {
        ProxySignalStep::Deliver { msg } => {
            assert_eq!(msg.signal_type, SignalType::Candidate);
            assert_eq!(msg.payload, "candidate:1 udp");
        },
        other => panic!("the candidate must reach the session, got {:?}", other),
    }

    // The connection comes up: the state change raises Connected and fires
    // the notifier the waiting call blocks on.
    assert!(portal.notifies_connected(PeerConnState::Connected));
    assert!(matches!(
        portal.state_event(PeerConnState::Connected),
        Some(PortalEvent::Connected { .. })
    ));
}

#[test]
fn timeout_on_missing_peer_leaves_no_session() {
    let mut pm = portal_manager("p1");
    // create_portal for a remote that never shows up: the notifier is
    // registered, the status subscription is placed, the wait times out,
    // and the map never holds the remote.
    let topic = pm.register_online_notifier("ghost");
    assert_eq!(topic, "callee/ghost/status");
    pm.online_timeout("ghost");
    assert!(!pm.lookup_portal("ghost"));
    // After the timeout the notifier is gone: a late beacon wakes nobody.
    match pm.handle_signal_event(SignalEvent::RemoteOnline("ghost".to_string())) {
        SignalStep::Nothing => {},
        other => panic!("no notifier may fire, got {:?}", other),
    }
}

#[test]
fn offline_eviction_frees_the_id_for_a_fresh_negotiation() {
    let mut pm = portal_manager("p1");
    pm.register_portal("c1");
    assert!(pm.lookup_portal("c1"));
    match pm.handle_signal_event(SignalEvent::RemoteOffline("c1".to_string())) {
        SignalStep::Nothing => {},
        other => panic!("offline eviction emits nothing, got {:?}", other),
    }
    assert!(!pm.lookup_portal("c1"));
    // A later create starts from scratch.
    pm.register_portal("c1");
    assert!(pm.lookup_portal("c1"));
}

#[test]
fn session_close_events_evict_portals() {
    let mut pm = portal_manager("p1");
    pm.register_portal("c1");
    let r = pm.handle_portal_event(PortalEvent::Closed { remote_id: "c1".to_string() });
    assert!(r.is_none());
    assert!(!pm.lookup_portal("c1"));
}

#[test]
fn remove_portal_twice_is_a_no_op() {
    let mut pm = portal_manager("p1");
    pm.register_portal("c1");
    let first = pm.remove_portal("c1");
    assert!(first.existed);
    assert_eq!(first.unsubscribe_topic, "callee/c1/status");
    assert!(!pm.lookup_portal("c1"));
    let second = pm.remove_portal("c1");
    assert!(!second.existed);
    assert_eq!(second.unsubscribe_topic, "callee/c1/status");
    assert!(!pm.lookup_portal("c1"));
}

#[test]
fn connect_failure_rolls_the_entry_back() {
    let mut pm = portal_manager("p1");
    pm.register_portal("c1");
    pm.connect_failed("c1");
    assert!(!pm.lookup_portal("c1"));
}

#[test]
fn proxy_eviction_respects_activity() {
    let mut xm = proxy_manager("c1", "127.0.0.1:19000");
    xm.register_proxy("p1");
    assert_eq!(xm.connection_count(), 1);
    // A stray close report while the connection recovered: the session stays.
    assert!(!xm.try_remove_proxy("p1", PeerConnState::Connected));
    assert_eq!(xm.connection_count(), 1);
    // The connection really is gone: the session is evicted.
    assert!(xm.try_remove_proxy("p1", PeerConnState::Disconnected));
    assert_eq!(xm.connection_count(), 0);
    // Nothing to remove the second time.
    assert!(!xm.try_remove_proxy("p1", PeerConnState::Closed));
}

#[test]
fn duplicate_offers_replace_the_session() {
    let mut xm = proxy_manager("c1", "127.0.0.1:19000");
    xm.register_proxy("p1");
    xm.register_proxy("p1");
    assert_eq!(xm.connection_count(), 1);
}

#[test]
fn manager_loops_stop_on_broker_loss() {
    let mut pm = portal_manager("p1");
    assert!(matches!(pm.handle_signal_event(SignalEvent::Disconnected), SignalStep::Exit));
    assert!(matches!(pm.handle_signal_event(SignalEvent::Connected), SignalStep::Nothing));
    let mut xm = proxy_manager("c1", "127.0.0.1:19000");
    assert!(matches!(xm.handle_signal_event(SignalEvent::Disconnected), ProxySignalStep::Exit));
}

#[test]
fn stray_messages_are_dropped_with_a_warning() {
    let mut pm = portal_manager("p1");
    let msg = remote_rpc_rs::SignalPayload {
        from_id: "nobody".to_string(),
        payload: "x".to_string(),
        signal_type: SignalType::Answer,
    };
    assert!(matches!(
        pm.handle_signal_event(SignalEvent::SignalMessage(msg)),
        SignalStep::Nothing
    ));
    let mut xm = proxy_manager("c1", "127.0.0.1:19000");
    let cand = remote_rpc_rs::SignalPayload {
        from_id: "nobody".to_string(),
        payload: "candidate:1".to_string(),
        signal_type: SignalType::Candidate,
    };
    assert!(matches!(
        xm.handle_signal_event(SignalEvent::SignalMessage(cand)),
        ProxySignalStep::Nothing
    ));
}
