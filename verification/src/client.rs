use vstd::prelude::*;

use crate::net::{SharedSettings, SocketAddress, unspecified_v4};
use crate::private_key::PRIVATE_KEY_BYTES;

verus! {

/// How the client connects to the server.
#[derive(Clone, Copy, Debug, PartialEq, Eq, PartialOrd, Ord, Structural)]
#[non_exhaustive]
pub enum ClientTransports {
    WebTransport,
}

/// Settings from which the client entity is set up.
#[derive(Clone, Copy, Debug, PartialEq, Eq)]
pub struct CubeClient {
    pub client_id: u64,
    /// The client port to listen on.
    pub client_port: u16,
    /// The socket address of the server.
    pub server_addr: SocketAddress,
    /// Which transport to use.
    pub transport: ClientTransports,
    pub shared: SharedSettings,
}

/// Netcode authentication with a key known to both sides.
#[derive(Clone, Copy, Debug, PartialEq, Eq)]
pub struct ManualAuthentication {
    pub server_addr: SocketAddress,
    pub client_id: u64,
    pub private_key: [u8; PRIVATE_KEY_BYTES],
    pub protocol_id: u64,
}

/// How the client's input and output is done.
#[derive(Debug)]
pub enum ClientIo {
    /// WebTransport, with the digest of the server certificate to trust.
    WebTransport { certificate_digest: String },
}

/// What the client entity is given when its settings are added.
#[derive(Debug)]
pub struct ClientConnection {
    /// The address it listens on.
    pub local_addr: SocketAddress,
    /// The address of the server.
    pub peer_addr: SocketAddress,
    pub auth: ManualAuthentication,
    /// After how many seconds without traffic the server drops the client.
    pub client_timeout_secs: i32,
    /// Lifetime of the connect token in seconds; negative means it never
    /// expires.
    pub token_expire_secs: i32,
    pub io: ClientIo,
}

/// The identifier every client is given.
pub const DEFAULT_CLIENT_ID: u64 = 1;

/// Seconds after which the server drops a silent client.
pub const CLIENT_TIMEOUT_SECS: i32 = 3;

impl CubeClient {
    /// A client with identifier 1 that listens on `client_port` and connects to
    /// `server_addr` over WebTransport.
    pub fn new_web_transport(client_port: u16, server_addr: SocketAddress, shared: SharedSettings) -> (c: CubeClient)
        ensures
            c.client_id == DEFAULT_CLIENT_ID,
            c.client_port == client_port,
            c.server_addr == server_addr,
            c.transport == ClientTransports::WebTransport,
            c.shared == shared,
    {
        CubeClient {
            client_id: DEFAULT_CLIENT_ID,
            client_port,
            server_addr,
            transport: ClientTransports::WebTransport,
            shared,
        }
    }

    /// What the client entity becomes: it listens on `0.0.0.0` at the client
    /// port, connects to the server with manual netcode authentication from
    /// the shared settings, times out after three seconds, holds a connect
    /// token that never expires, and talks WebTransport trusting
    /// `certificate_digest`.
    pub fn connection(&self, certificate_digest: String) -> (c: ClientConnection)
        ensures
            c.local_addr.ip == unspecified_v4(),
            c.local_addr.port == self.client_port,
            c.peer_addr == self.server_addr,
            c.auth == (ManualAuthentication {
                server_addr: self.server_addr,
                client_id: self.client_id,
                private_key: self.shared.private_key,
                protocol_id: self.shared.protocol_id,
            }),
            c.client_timeout_secs == CLIENT_TIMEOUT_SECS,
            c.token_expire_secs == -1,
            c.io == (ClientIo::WebTransport { certificate_digest }),
    {
        let io = match self.transport {
            ClientTransports::WebTransport => ClientIo::WebTransport { certificate_digest },
        };
        ClientConnection {
            local_addr: SocketAddress::any_interface(self.client_port),
            peer_addr: self.server_addr,
            auth: ManualAuthentication {
                server_addr: self.server_addr,
                client_id: self.client_id,
                private_key: self.shared.private_key,
                protocol_id: self.shared.protocol_id,
            },
            client_timeout_secs: CLIENT_TIMEOUT_SECS,
            token_expire_secs: -1,
            io,
        }
    }
}

} // verus!
