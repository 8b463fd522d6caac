use monkey::client::{ClientIo, ClientTransports, CubeClient, ManualAuthentication};
use monkey::net::{IpAddress, SharedSettings, SocketAddress};

#[test]
fn client_connection_uses_shared_settings() {
    let server = SocketAddress { ip: IpAddress::V4([127, 0, 0, 1]), port: 5000 };
    let shared = SharedSettings { protocol_id: 3, private_key: [1u8; 32] };
    let client = CubeClient::new_web_transport(4000, server, shared);
    assert_eq!(client.client_id, 1);
    assert_eq!(client.transport, ClientTransports::WebTransport);
    let c = client.connection(String::new());
    assert_eq!(c.local_addr, SocketAddress { ip: IpAddress::V4([0, 0, 0, 0]), port: 4000 });
    assert_eq!(c.peer_addr, server);
    assert_eq!(
        c.auth,
        ManualAuthentication { server_addr: server, client_id: 1, private_key: [1u8; 32], protocol_id: 3 }
    );
    assert_eq!(c.client_timeout_secs, 3);
    assert_eq!(c.token_expire_secs, -1);
    match c.io {
        ClientIo::WebTransport { certificate_digest } => assert_eq!(certificate_digest, ""),
    }
}
