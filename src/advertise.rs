//! What a host publishes about itself, and the local identity it goes by.
use vstd::prelude::*;

use crate::connect::{SERVICE_TYPE, WS_PORT};
use crate::peers::SERVICE_PREFIX;

verus! {

/// The service record a host advertises.
#[derive(Debug)]
pub struct Advertisement {
    pub service_type: String,
    pub instance_name: String,
    pub host_domain: String,
    pub address: String,
    pub port: u16,
}

/// The local identity: the machine's name when it could be read, else the
/// fallback.
pub fn host_name_or(got: Option<String>, fallback: &str) -> (r: String)
    ensures
        match got {
            Some(s) => r@ == s@,
            None => r@ == fallback@,
        },
{
    match got {
        Some(s) => s,
        None => String::from_str(fallback),
    }
}

/// The record for host `host_name` at `local_ip` (the loopback address
/// when none could be read): instance `RemoteSync-<name>`, domain
/// `<name>.local.`, the fixed service type and port.
pub fn advertisement(host_name: &str, local_ip: Option<String>) -> (r: Advertisement)
    ensures
        r.service_type@ == SERVICE_TYPE@,
        r.instance_name@ == SERVICE_PREFIX@ + host_name@,
        r.host_domain@ == host_name@ + ".local."@,
        r.address@ == match local_ip {
            Some(ip) => ip@,
            None => "127.0.0.1"@,
        },
        r.port == WS_PORT,
{
    let mut instance_name = String::from_str(SERVICE_PREFIX);
    instance_name.append(host_name);
    let mut host_domain = String::from_str(host_name);
    host_domain.append(".local.");
    let address = match local_ip {
        Some(ip) => ip,
        None => String::from_str("127.0.0.1"),
    };
    Advertisement {
        service_type: String::from_str(SERVICE_TYPE),
        instance_name,
        host_domain,
        address,
        port: WS_PORT,
    }
}

} // verus!
