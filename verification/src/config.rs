//! Configuration: the broker session settings and the peer-connection
//! settings handed through to the WebRTC stack.

use vstd::prelude::*;

verus! {

/// What construction and configuration can fail with.
#[derive(Debug, Clone, Copy, PartialEq, Eq, Structural)]
pub enum ConfigError {
    /// A manager cannot be built without a local identity.
    MissingLocalId,
    /// A manager cannot be built without broker settings.
    MissingMqttConfig,
    /// A proxy manager cannot be built without a target address.
    MissingTargetAddr,
    /// The broker URL does not start with `mqtt://`.
    BrokerUrlScheme,
    /// The broker URL names no host.
    BrokerUrlInvalid,
    /// The broker URL's port is not a port number.
    BrokerPortInvalid,
    /// Neither the request nor the service carries a user id.
    MissingUserId,
}

impl ConfigError {
    /// A short description of the error.
    pub fn message(&self) -> (r: &'static str)
        ensures
            *self == ConfigError::MissingLocalId ==> r@ == "local_id is required"@,
            *self == ConfigError::MissingMqttConfig ==> r@ == "mqtt config is required"@,
            *self == ConfigError::MissingTargetAddr ==> r@ == "target_addr is required"@,
            *self == ConfigError::BrokerUrlScheme ==> r@ == "Broker URL must start with mqtt://"@,
            *self == ConfigError::BrokerUrlInvalid ==> r@ == "Invalid broker URL"@,
            *self == ConfigError::BrokerPortInvalid ==> r@ == "Invalid broker port"@,
            *self == ConfigError::MissingUserId ==> r@ == "User id is empty"@,
    {
        match self {
            ConfigError::MissingLocalId => "local_id is required",
            ConfigError::MissingMqttConfig => "mqtt config is required",
            ConfigError::MissingTargetAddr => "target_addr is required",
            ConfigError::BrokerUrlScheme => "Broker URL must start with mqtt://",
            ConfigError::BrokerUrlInvalid => "Invalid broker URL",
            ConfigError::BrokerPortInvalid => "Invalid broker port",
            ConfigError::MissingUserId => "User id is empty",
        }
    }
}

/// Broker session settings.  `keep_alive` is in seconds.
#[derive(Debug, Clone)]
pub struct MqttConfig {
    pub broker_host: String,
    pub broker_port: u16,
    pub username: Option<String>,
    pub password: Option<String>,
    pub keep_alive: u64,
    pub clean_session: bool,
}

impl Default for MqttConfig {
    /// A local broker on the default port, keepalive of one minute, clean
    /// session, no credentials.
    fn default() -> (r: Self)
        ensures
            r.broker_host@ == "localhost"@,
            r.broker_port == 1883,
            r.username is None,
            r.password is None,
            r.keep_alive == 60,
            r.clean_session == true,
    {
        MqttConfig {
            broker_host: "localhost".to_owned(),
            broker_port: 1883,
            username: None,
            password: None,
            keep_alive: 60,
            clean_session: true,
        }
    }
}

/// One ICE server: STUN without credentials, TURN with them.
#[derive(Debug, Clone)]
pub struct IceServer {
    pub urls: Vec<String>,
    pub username: Option<String>,
    pub credential: Option<String>,
}

impl IceServer {
    /// A STUN server: one URL, no credentials.
    pub fn stun(url: &str) -> (r: Self)
        ensures
            r.urls@.len() == 1,
            r.urls@[0]@ == url@,
            r.username is None,
            r.credential is None,
    {
        let mut urls: Vec<String> = Vec::new();
        urls.push(url.to_owned());
        IceServer { urls, username: None, credential: None }
    }

    /// A TURN server: one URL with a username and credential.
    pub fn turn(url: &str, username: &str, credential: &str) -> (r: Self)
        ensures
            r.urls@.len() == 1,
            r.urls@[0]@ == url@,
            r.username matches Some(u) && u@ == username@,
            r.credential matches Some(c) && c@ == credential@,
    {
        let mut urls: Vec<String> = Vec::new();
        urls.push(url.to_owned());
        IceServer {
            urls,
            username: Some(username.to_owned()),
            credential: Some(credential.to_owned()),
        }
    }
}

/// Peer-connection settings.  The timeouts are in seconds.
#[derive(Debug, Clone)]
pub struct PeerConfig {
    pub ice_servers: Vec<IceServer>,
    pub online_timeout: u64,
    pub connect_timeout: u64,
    pub datachannel_timeout: u64,
    pub ice_gathering_timeout: u64,
}

impl Default for PeerConfig {
    /// One public STUN server and five-second timeouts.
    fn default() -> (r: Self)
        ensures
            r.ice_servers@.len() == 1,
            r.ice_servers@[0].urls@.len() == 1,
            r.ice_servers@[0].urls@[0]@ == "stun:stun.l.google.com:19302"@,
            r.ice_servers@[0].username is None,
            r.ice_servers@[0].credential is None,
            r.online_timeout == 5,
            r.connect_timeout == 5,
            r.datachannel_timeout == 5,
            r.ice_gathering_timeout == 5,
    {
        let mut ice_servers: Vec<IceServer> = Vec::new();
        ice_servers.push(IceServer::stun("stun:stun.l.google.com:19302"));
        PeerConfig {
            ice_servers,
            online_timeout: 5,
            connect_timeout: 5,
            datachannel_timeout: 5,
            ice_gathering_timeout: 5,
        }
    }
}

} // verus!
