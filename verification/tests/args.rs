use remote_rpc_rs::{
    build_addr_uri, build_remote_id, resolve_user_id, ConfigError, CreatePortalRequest, MqttArgs,
    MqttConfig, PeerArgs, PeerConfig, PortalType,
};

fn mqtt_args(url: &str) -> MqttArgs {
    MqttArgs { mqtt_broker: url.to_string(), mqtt_username: None, mqtt_password: None }
}

#[test]
fn broker_url_parses_host_and_port() {
    let c = mqtt_args("mqtt://broker.example:8883").to_config().expect("valid URL");
    assert_eq!(c.broker_host, "broker.example");
    assert_eq!(c.broker_port, 8883);
    assert_eq!(c.keep_alive, 60);
    assert!(c.clean_session);
}

#[test]
fn broker_url_port_defaults() {
    let c = mqtt_args("mqtt://localhost").to_config().expect("valid URL");
    assert_eq!(c.broker_host, "localhost");
    assert_eq!(c.broker_port, 1883);
}

#[test]
fn broker_url_is_trimmed() {
    let c = mqtt_args("  mqtt://h:99\n").to_config().expect("valid URL");
    assert_eq!(c.broker_host, "h");
    assert_eq!(c.broker_port, 99);
}

#[test]
fn broker_url_keeps_credentials() {
    let args = MqttArgs {
        mqtt_broker: "mqtt://localhost:1883".to_string(),
        mqtt_username: Some("u".to_string()),
        mqtt_password: Some("p".to_string()),
    };
    let c = args.to_config().expect("valid URL");
    assert_eq!(c.username, Some("u".to_string()));
    assert_eq!(c.password, Some("p".to_string()));
}

#[test]
fn broker_url_requires_the_scheme() {
    let e = mqtt_args("tcp://localhost:1883").to_config().expect_err("wrong scheme");
    assert_eq!(e, ConfigError::BrokerUrlScheme);
    assert_eq!(e.message(), "Broker URL must start with mqtt://");
    assert!(mqtt_args("").to_config().is_err());
}

#[test]
fn broker_url_rejects_bad_ports() {
    assert_eq!(
        mqtt_args("mqtt://h:abc").to_config().expect_err("not a number"),
        ConfigError::BrokerPortInvalid
    );
    assert_eq!(
        mqtt_args("mqtt://h:70000").to_config().expect_err("too large"),
        ConfigError::BrokerPortInvalid
    );
    assert_eq!(
        mqtt_args("mqtt://h:").to_config().expect_err("empty port"),
        ConfigError::BrokerPortInvalid
    );
    // The standard integer parser accepts a leading plus; so does this one.
    assert_eq!(mqtt_args("mqtt://h:+99").to_config().expect("plus sign").broker_port, 99);
    // Anything after a second colon is ignored, like a split would.
    assert_eq!(mqtt_args("mqtt://h:99:extra").to_config().expect("extra part").broker_port, 99);
}

#[test]
fn turn_urls_parse_credentials_and_host() {
    let s = PeerArgs::parse_turn_url("turn:user:pass@turn.example:3478").expect("turn URL");
    assert_eq!(s.urls, vec!["turn:turn.example:3478".to_string()]);
    assert_eq!(s.username, Some("user".to_string()));
    assert_eq!(s.credential, Some("pass".to_string()));

    let s = PeerArgs::parse_turn_url("turn:turn.example:3478").expect("no credentials");
    assert_eq!(s.urls, vec!["turn:turn.example:3478".to_string()]);
    assert_eq!(s.username, Some("".to_string()));
    assert_eq!(s.credential, Some("".to_string()));

    let s = PeerArgs::parse_turn_url("user@host").expect("no scheme, user only");
    assert_eq!(s.urls, vec!["turn:host".to_string()]);
    assert_eq!(s.username, Some("user".to_string()));
    assert_eq!(s.credential, Some("".to_string()));

    let s = PeerArgs::parse_turn_url("turn:u:p@ss@host:3478").expect("last at splits");
    assert_eq!(s.urls, vec!["turn:host:3478".to_string()]);
    assert_eq!(s.username, Some("u".to_string()));
    assert_eq!(s.credential, Some("p@ss".to_string()));
}

#[test]
fn peer_args_build_the_server_list_in_order() {
    let args = PeerArgs {
        peer_stun: vec!["stun:one.example:3478".to_string(), "stun:two.example:3478".to_string()],
        peer_turn: vec!["turn:u:p@turn.example:3478".to_string()],
        online_timeout: 2,
        connect_timeout: 7,
    };
    let c = args.to_config();
    assert_eq!(c.online_timeout, 2);
    assert_eq!(c.connect_timeout, 7);
    assert_eq!(c.datachannel_timeout, 5);
    assert_eq!(c.ice_gathering_timeout, 5);
    assert_eq!(c.ice_servers.len(), 3);
    assert_eq!(c.ice_servers[0].urls, vec!["stun:one.example:3478".to_string()]);
    assert!(c.ice_servers[0].username.is_none());
    assert_eq!(c.ice_servers[1].urls, vec!["stun:two.example:3478".to_string()]);
    assert_eq!(c.ice_servers[2].urls, vec!["turn:turn.example:3478".to_string()]);
    assert_eq!(c.ice_servers[2].username, Some("u".to_string()));
    assert_eq!(c.ice_servers[2].credential, Some("p".to_string()));
}

#[test]
fn default_configs_match_their_documentation() {
    let mq = MqttConfig::default();
    assert_eq!(mq.broker_host, "localhost");
    assert_eq!(mq.broker_port, 1883);
    assert_eq!(mq.keep_alive, 60);
    assert!(mq.clean_session);
    let pc = PeerConfig::default();
    assert_eq!(pc.ice_servers.len(), 1);
    assert_eq!(pc.ice_servers[0].urls, vec!["stun:stun.l.google.com:19302".to_string()]);
    assert_eq!(pc.online_timeout, 5);
    assert_eq!(pc.connect_timeout, 5);
}

#[test]
fn hub_rules_derive_ids_and_addresses() {
    assert_eq!(build_remote_id("rob", "cam"), "rob-cam");
    assert_eq!(resolve_user_id("alice", "fallback").unwrap(), "alice");
    assert_eq!(resolve_user_id("", "fallback").unwrap(), "fallback");
    assert_eq!(resolve_user_id("", "").unwrap_err(), ConfigError::MissingUserId);
    assert_eq!(ConfigError::MissingUserId.message(), "User id is empty");

    let mut req = CreatePortalRequest {
        user_id: "".to_string(),
        robot_id: "rob".to_string(),
        service_name: "cam".to_string(),
        portal_type: PortalType::Inet,
        inet_port: Some("8000".to_string()),
        unix_file: None,
    };
    assert_eq!(build_addr_uri(&req), "0.0.0.0:8000");
    req.inet_port = None;
    assert_eq!(build_addr_uri(&req), "0.0.0.0:0");
    req.portal_type = PortalType::Unix;
    assert_eq!(build_addr_uri(&req), "unix:///tmp/lrc_rob_cam.sock");
    req.unix_file = Some("/run/app.sock".to_string());
    assert_eq!(build_addr_uri(&req), "unix:///run/app.sock");
    req.unix_file = Some("".to_string());
    assert_eq!(build_addr_uri(&req), "unix:///tmp/lrc_rob_cam.sock");
    assert_eq!(PortalType::default(), PortalType::Inet);
}
