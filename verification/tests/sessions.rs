use remote_rpc_rs::{
    classify_addr_uri, socket_pump_step, AcceptDecision, AddrKind, ChannelAction, PeerConfig,
    PeerConnState, Portal, PortalEvent, PortalSignalAction, Proxy, ProxySignalAction, PumpAction,
    SignalPayload, SignalType, SocketRead, BUFFER_SIZE,
};

fn portal() -> Portal {
    Portal::new(
        "p1".to_string(),
        "c1".to_string(),
        "127.0.0.1:19001".to_string(),
        PeerConfig::default(),
    )
}

fn proxy(target: &str) -> Proxy {
    Proxy::new("c1".to_string(), "p1".to_string(), target.to_string(), PeerConfig::default())
}

#[test]
fn portal_offer_and_candidate_events_carry_identity() {
    let p = portal();
    match p.offer_event("v=0".to_string()) {
        PortalEvent::Offer { remote_id, payload } => {
            assert_eq!(remote_id, "c1");
            assert_eq!(payload.from_id, "p1");
            assert_eq!(payload.payload, "v=0");
            assert_eq!(payload.signal_type, SignalType::Offer);
        },
        other => panic!("expected Offer, got {:?}", other),
    }
    match p.candidate_event("candidate:1".to_string()) {
        PortalEvent::Candidate { remote_id, payload } => {
            assert_eq!(remote_id, "c1");
            assert_eq!(payload.signal_type, SignalType::Candidate);
        },
        other => panic!("expected Candidate, got {:?}", other),
    }
}

#[test]
fn portal_state_changes_map_to_events() {
    let p = portal();
    assert!(matches!(
        p.state_event(PeerConnState::Connected),
        Some(PortalEvent::Connected { .. })
    ));
    for s in [PeerConnState::Disconnected, PeerConnState::Failed, PeerConnState::Closed] {
        assert!(matches!(p.state_event(s), Some(PortalEvent::Closed { .. })));
    }
    assert!(p.state_event(PeerConnState::New).is_none());
    assert!(p.state_event(PeerConnState::Connecting).is_none());
    assert!(p.notifies_connected(PeerConnState::Connected));
    assert!(!p.notifies_connected(PeerConnState::Failed));
}

#[test]
fn portal_accepts_answer_and_candidate_only() {
    let p = portal();
    let answer = SignalPayload {
        from_id: "c1".to_string(),
        payload: "answer sdp".to_string(),
        signal_type: SignalType::Answer,
    };
    match p.handle_signal_message(answer) {
        PortalSignalAction::SetRemoteAnswer { sdp } => assert_eq!(sdp, "answer sdp"),
        other => panic!("expected SetRemoteAnswer, got {:?}", other),
    }
    let cand = SignalPayload {
        from_id: "c1".to_string(),
        payload: "candidate:9".to_string(),
        signal_type: SignalType::Candidate,
    };
    match p.handle_signal_message(cand) {
        PortalSignalAction::AddIceCandidate { candidate } => assert_eq!(candidate, "candidate:9"),
        other => panic!("expected AddIceCandidate, got {:?}", other),
    }
    let offer = SignalPayload {
        from_id: "c1".to_string(),
        payload: "x".to_string(),
        signal_type: SignalType::Offer,
    };
    assert!(matches!(p.handle_signal_message(offer), PortalSignalAction::Ignore));
}

#[test]
fn accepted_sockets_are_bridged_or_dropped() {
    // Every accepted socket either gets a fresh channel or is dropped
    // because the connection is terminal.
    let p = portal();
    for s in [
        PeerConnState::New,
        PeerConnState::Connecting,
        PeerConnState::Connected,
        PeerConnState::Disconnected,
    ] {
        match p.accept_step(s) {
            AcceptDecision::Bridge { label } => {
                assert!(label.starts_with("p1-"));
                assert_ne!(label, "DEFAULT");
            },
            AcceptDecision::Stop => panic!("non-terminal state must bridge"),
        }
    }
    for s in [PeerConnState::Failed, PeerConnState::Closed] {
        assert!(matches!(p.accept_step(s), AcceptDecision::Stop));
    }
}

#[test]
fn channel_labels_are_never_default() {
    let p = portal();
    assert_eq!(p.data_channel_label(1717171717171), "p1-1717171717171");
    assert_eq!(p.data_channel_label(-5), "p1--5");
    assert_eq!(p.data_channel_label(0), "p1-0");
    let fresh = p.create_data_channel();
    assert!(fresh.starts_with("p1-"));
    assert_ne!(fresh, "DEFAULT");
}

#[test]
fn default_channel_is_never_bridged_on_the_proxy() {
    let px = proxy("127.0.0.1:19000");
    assert!(matches!(px.data_channel_action("DEFAULT"), ChannelAction::Ignore));
    match px.data_channel_action("p1-1717171717171") {
        ChannelAction::Dial { target } => match target {
            AddrKind::Tcp { addr } => assert_eq!(addr, "127.0.0.1:19000"),
            other => panic!("expected a TCP target, got {:?}", other),
        },
        other => panic!("expected Dial, got {:?}", other),
    }
}

#[test]
fn proxy_dials_unix_targets() {
    let px = proxy("unix:///tmp/echo.sock");
    match px.data_channel_action("p1-42") {
        ChannelAction::Dial { target } => match target {
            AddrKind::Unix { path } => assert_eq!(path, "/tmp/echo.sock"),
            other => panic!("expected a Unix target, got {:?}", other),
        },
        other => panic!("expected Dial, got {:?}", other),
    }
}

#[test]
fn proxy_accepts_candidates_only() {
    let px = proxy("127.0.0.1:19000");
    let cand = SignalPayload {
        from_id: "p1".to_string(),
        payload: "candidate:1".to_string(),
        signal_type: SignalType::Candidate,
    };
    match px.handle_signal_message(cand) {
        ProxySignalAction::AddIceCandidate { candidate } => assert_eq!(candidate, "candidate:1"),
        other => panic!("expected AddIceCandidate, got {:?}", other),
    }
    let offer = SignalPayload {
        from_id: "p1".to_string(),
        payload: "sdp".to_string(),
        signal_type: SignalType::Offer,
    };
    assert!(matches!(px.handle_signal_message(offer), ProxySignalAction::Ignore));
}

#[test]
fn proxy_activity_predicate() {
    let px = proxy("127.0.0.1:19000");
    assert!(px.is_active(PeerConnState::New));
    assert!(px.is_active(PeerConnState::Connecting));
    assert!(px.is_active(PeerConnState::Connected));
    assert!(!px.is_active(PeerConnState::Disconnected));
    assert!(!px.is_active(PeerConnState::Failed));
    assert!(!px.is_active(PeerConnState::Closed));
    assert!(px.is_connected(PeerConnState::Connected));
    assert!(!px.is_connected(PeerConnState::New));
}

#[test]
fn classify_addr_uri_splits_schemes() {
    match classify_addr_uri("unix:///var/run/app.sock") {
        AddrKind::Unix { path } => assert_eq!(path, "/var/run/app.sock"),
        other => panic!("expected Unix, got {:?}", other),
    }
    match classify_addr_uri("0.0.0.0:8080") {
        AddrKind::Tcp { addr } => assert_eq!(addr, "0.0.0.0:8080"),
        other => panic!("expected Tcp, got {:?}", other),
    }
    match classify_addr_uri("unix:/not-a-scheme") {
        AddrKind::Tcp { addr } => assert_eq!(addr, "unix:/not-a-scheme"),
        other => panic!("expected Tcp, got {:?}", other),
    }
}

#[test]
fn bridge_pump_forwards_bytes_unchanged() {
    assert_eq!(BUFFER_SIZE, 4096);
    let chunk: Vec<u8> = (0..=255u8).cycle().take(4096).collect();
    match socket_pump_step(SocketRead::Data { bytes: chunk.clone() }) {
        PumpAction::Send { bytes } => assert_eq!(bytes, chunk),
        PumpAction::Close => panic!("non-empty read must be sent"),
    }
    assert!(matches!(socket_pump_step(SocketRead::Data { bytes: vec![] }), PumpAction::Close));
    assert!(matches!(socket_pump_step(SocketRead::Eof), PumpAction::Close));
    assert!(matches!(socket_pump_step(SocketRead::Failed), PumpAction::Close));
}
