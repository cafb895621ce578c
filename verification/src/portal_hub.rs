//! Hub rules: how a multi-tenant front end derives users, remote ids and
//! bind addresses for the portals it manages.

use vstd::prelude::*;

use crate::config::ConfigError;

verus! {

/// Where the portal listens for its local clients.
#[derive(Debug, Clone, Copy, PartialEq, Eq, Structural)]
pub enum PortalType {
    /// On a TCP port.
    Inet,
    /// On a Unix domain socket.
    Unix,
}

impl Default for PortalType {
    /// TCP is the default.
    fn default() -> (r: Self)
        ensures
            r == PortalType::Inet,
    {
        PortalType::Inet
    }
}

/// A request to open a portal towards one service of one robot.
#[derive(Debug, Clone)]
pub struct CreatePortalRequest {
    pub user_id: String,
    pub robot_id: String,
    pub service_name: String,
    pub portal_type: PortalType,
    pub inet_port: Option<String>,
    pub unix_file: Option<String>,
}

/// The answer: where the portal listens.
#[derive(Debug, Clone)]
pub struct CreatePortalResponse {
    pub uri: String,
}

/// The user a request acts for: the request's own id when it carries one,
/// else the service's default, else an error.
pub fn resolve_user_id(request_user_id: &str, default_user_id: &str) -> (r: Result<
    String,
    ConfigError,
>)
    ensures
        request_user_id@.len() > 0 ==> (r matches Ok(u) && u@ == request_user_id@),
        request_user_id@.len() == 0 && default_user_id@.len() > 0 ==> (r matches Ok(u) && u@
            == default_user_id@),
        request_user_id@.len() == 0 && default_user_id@.len() == 0 ==> r == Err::<
            String,
            ConfigError,
        >(ConfigError::MissingUserId),
{
    if !request_user_id.is_empty() {
        return Ok(request_user_id.to_owned());
    }
    if !default_user_id.is_empty() {
        return Ok(default_user_id.to_owned());
    }
    Err(ConfigError::MissingUserId)
}

/// The remote identity a robot's service signs on with: `<robot>-<service>`.
pub fn build_remote_id(robot_id: &str, service_name: &str) -> (r: String)
    ensures
        r@ == robot_id@ + "-"@ + service_name@,
{
    let mut s = robot_id.to_owned();
    s.append("-");
    s.append(service_name);
    proof {
        assert(s@ =~= robot_id@ + "-"@ + service_name@);
    }
    s
}

/// The address URI the portal binds: a given or derived Unix socket path,
/// or a TCP address on all interfaces with the given port (an ephemeral one
/// when none is given).
pub fn build_addr_uri(req: &CreatePortalRequest) -> (r: String)
    ensures
        req.portal_type == PortalType::Unix ==> {
            &&& req.unix_file matches Some(f) ==> f@.len() > 0 ==> r@ == "unix://"@ + f@
            &&& (match req.unix_file {
                Some(f) => f@.len() == 0,
                None => true,
            }) ==> r@ == "unix:///tmp/lrc_"@ + req.robot_id@ + "_"@ + req.service_name@
                + ".sock"@
        },
        req.portal_type == PortalType::Inet ==> {
            &&& req.inet_port matches Some(p) ==> r@ == "0.0.0.0:"@ + p@
            &&& req.inet_port is None ==> r@ == "0.0.0.0:"@ + "0"@
        },
{
    match req.portal_type {
        PortalType::Unix => {
            if let Some(file) = &req.unix_file {
                if !file.as_str().is_empty() {
                    let mut s = "unix://".to_owned();
                    s.append(file.as_str());
                    return s;
                }
            }
            let mut s = "unix:///tmp/lrc_".to_owned();
            s.append(req.robot_id.as_str());
            s.append("_");
            s.append(req.service_name.as_str());
            s.append(".sock");
            proof {
                assert(s@ =~= "unix:///tmp/lrc_"@ + req.robot_id@ + "_"@ + req.service_name@
                    + ".sock"@);
            }
            s
        },
        PortalType::Inet => {
            let mut s = "0.0.0.0:".to_owned();
            match &req.inet_port {
                Some(p) => s.append(p.as_str()),
                None => s.append("0"),
            }
            s
        },
    }
}

} // verus!
