//! The records that the client stores and exchanges.

use vstd::prelude::*;

verus! {

/// A saved connection: an SSH or web target, with how to open its port first.
#[derive(Debug, Clone)]
pub struct Connection {
    pub id: Option<i64>,
    pub name: String,
    pub conn_type: String,
    pub host: String,
    pub port: Option<u16>,
    pub username: Option<String>,
    pub ssh_client: Option<String>,
    pub knock_ports: String,
    pub knock_protocol: String,
    pub knock_delay_ms: i64,
    pub launch_uri: Option<String>,
    pub auth_method: String,
    pub spa_site_id: Option<String>,
    pub spa_credential: Option<String>,
    pub spa_udp_port: Option<u16>,
    pub created_at: Option<String>,
    pub updated_at: Option<String>,
}

/// One packet of a knock sequence: a protocol (empty for the connection's
/// default) and a port.
#[derive(Debug, Clone)]
pub struct KnockStep {
    pub protocol: String,
    pub port: u16,
}

/// An SSH client the user can launch.
#[derive(Debug, Clone)]
pub struct SshClient {
    pub name: String,
    pub path: String,
    pub installed: bool,
}

} // verus!
