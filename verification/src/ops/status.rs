//! Status assessment of the daemons of the suite.
use vstd::prelude::*;

use crate::daemon::DaemonEndpoint;
use crate::json::opt_text;
use crate::varlink::ServiceInfo;

verus! {

/// Status assessment for one daemon of the suite.
#[derive(Debug, Clone)]
pub struct DaemonStatus {
    pub name: String,
    pub unit_name: String,
    pub socket_path: String,
    pub socket_exists: bool,
    pub responsive: bool,
    pub latency_ms: Option<u64>,
    pub product: Option<String>,
    pub version: Option<String>,
    pub interfaces: Vec<String>,
    pub error_message: Option<String>,
}

/// What probing a daemon found: no socket file, an answer to `GetInfo`
/// after some milliseconds, or a failure with its message.
#[derive(Debug)]
pub enum StatusProbe {
    SocketMissing,
    Answered { latency_ms: u64, info: ServiceInfo },
    Failed(String),
}

/// Whether `s` is the status of `endpoint`, whose socket is at `socket`,
/// after `probe`.
pub open spec fn status_after(
    s: DaemonStatus,
    endpoint: DaemonEndpoint,
    socket: Seq<char>,
    probe: StatusProbe,
) -> bool {
    &&& s.name@ == endpoint.name@
    &&& s.unit_name@ == endpoint.unit_name@
    &&& s.socket_path@ == socket
    &&& match probe {
        StatusProbe::SocketMissing => {
            &&& !s.socket_exists
            &&& !s.responsive
            &&& s.latency_ms is None
            &&& s.product is None
            &&& s.version is None
            &&& s.interfaces@.len() == 0
            &&& opt_text(s.error_message) == Some("Socket file not found"@)
        },
        StatusProbe::Answered { latency_ms, info } => {
            &&& s.socket_exists
            &&& s.responsive
            &&& s.latency_ms == Some(latency_ms)
            &&& opt_text(s.product) == Some(info.product@)
            &&& opt_text(s.version) == Some(info.version@)
            &&& s.interfaces == info.interfaces
            &&& s.error_message is None
        },
        StatusProbe::Failed(message) => {
            &&& s.socket_exists
            &&& !s.responsive
            &&& s.latency_ms is None
            &&& s.product is None
            &&& s.version is None
            &&& s.interfaces@.len() == 0
            &&& opt_text(s.error_message) == Some(message@)
        },
    }
}

/// The status of `endpoint`, whose socket is at `socket_path`, after
/// `probe`.
pub fn daemon_status(endpoint: &DaemonEndpoint, socket_path: String, probe: StatusProbe) -> (r: DaemonStatus)
    ensures
        status_after(r, *endpoint, socket_path@, probe),
{
    let name = String::from_str(endpoint.name);
    let unit_name = String::from_str(endpoint.unit_name);
    match probe {
        StatusProbe::SocketMissing => DaemonStatus {
            name,
            unit_name,
            socket_path,
            socket_exists: false,
            responsive: false,
            latency_ms: None,
            product: None,
            version: None,
            interfaces: Vec::new(),
            error_message: Some(String::from_str("Socket file not found")),
        },
        StatusProbe::Answered { latency_ms, info } => DaemonStatus {
            name,
            unit_name,
            socket_path,
            socket_exists: true,
            responsive: true,
            latency_ms: Some(latency_ms),
            product: Some(info.product),
            version: Some(info.version),
            interfaces: info.interfaces,
            error_message: None,
        },
        StatusProbe::Failed(message) => DaemonStatus {
            name,
            unit_name,
            socket_path,
            socket_exists: true,
            responsive: false,
            latency_ms: None,
            product: None,
            version: None,
            interfaces: Vec::new(),
            error_message: Some(message),
        },
    }
}

} // verus!
