//! Where a cancel request has to go.
use vstd::prelude::*;
use crate::config::ServerTlsConfig;

verus! {

/// The process of a backend.
pub type ProcessId = i32;

/// The key that a cancel request needs.
pub type SecretKey = i32;

/// The host of a backend.
pub type ServerHost = String;

/// The port of a backend.
pub type ServerPort = u16;

/// Target information for forwarding a CancelRequest to the right backend.
#[derive(Debug)]
pub struct CancelTarget {
    pub process_id: ProcessId,
    pub secret_key: SecretKey,
    pub host: ServerHost,
    pub port: ServerPort,
    pub server_tls: ServerTlsConfig,
    pub connected_with_tls: bool,
    pub pool_name: String,
}

impl Clone for CancelTarget {
    fn clone(&self) -> (r: Self)
        ensures
            r == *self,
    {
        CancelTarget {
            process_id: self.process_id,
            secret_key: self.secret_key,
            host: self.host.clone(),
            port: self.port,
            server_tls: self.server_tls,
            connected_with_tls: self.connected_with_tls,
            pool_name: self.pool_name.clone(),
        }
    }
}

} // verus!
