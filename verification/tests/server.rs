use monkey::net::{IpAddress, NetworkTarget, PeerId, SharedSettings};
use monkey::server::{
    plan_server_movement, player_for_camera, player_replication, self_signed_sans, CameraView,
    CubeServer, MovementStep, OwnedEntity, PlayerView, ServerIo, ServerTransports,
    WebTransportCertificateSettings,
};

fn shared() -> SharedSettings {
    SharedSettings { protocol_id: 7, private_key: [4u8; 32] }
}

#[test]
fn default_certificate_is_self_signed_for_localhost() {
    match WebTransportCertificateSettings::default() {
        WebTransportCertificateSettings::AutoSelfSigned(sans) => {
            assert_eq!(sans, vec!["localhost", "127.0.0.1", "::1"]);
        }
        other => panic!("unexpected {:?}", other),
    }
}

#[test]
fn sans_keep_configured_names_first() {
    let configured = vec!["localhost".to_string()];
    assert_eq!(self_signed_sans(&configured, None, None), vec!["localhost"]);
    assert_eq!(
        self_signed_sans(&configured, Some("1.2.3.4"), None),
        vec!["localhost", "1.2.3.4", "*.pr.edgegap.net"]
    );
    assert_eq!(
        self_signed_sans(&configured, Some("1.2.3.4"), Some("example.org,example.com,127.1.1.1")),
        vec!["localhost", "1.2.3.4", "*.pr.edgegap.net", "example.org", "example.com", "127.1.1.1"]
    );
    assert_eq!(self_signed_sans(&configured, None, Some("")), vec!["localhost", ""]);
}

#[test]
fn server_reads_certificate_from_files() {
    let s = CubeServer::new_web_transport(5000, shared());
    match &s.transport {
        ServerTransports::WebTransport { local_port, certificate } => {
            assert_eq!(*local_port, 5000);
            match certificate {
                WebTransportCertificateSettings::FromFile { cert, key } => {
                    assert_eq!(cert, "certificates/cert.pem");
                    assert_eq!(key, "certificates/key.pem");
                }
                other => panic!("unexpected {:?}", other),
            }
        }
        other => panic!("unexpected {:?}", other),
    }
}

#[test]
fn environment_key_takes_precedence() {
    let s = CubeServer::new_web_transport(5000, shared());
    assert_eq!(s.netcode_private_key(None), [4u8; 32]);
    assert_eq!(s.netcode_private_key(Some([9u8; 32])), [9u8; 32]);
    let c = s.into_connection(Some([9u8; 32]));
    assert_eq!(c.private_key, [9u8; 32]);
    assert_eq!(c.protocol_id, 7);
    assert_eq!(c.local_addr.ip, IpAddress::V4([0, 0, 0, 0]));
    assert_eq!(c.local_addr.port, 5000);
    match c.io {
        ServerIo::WebTransport { certificate: WebTransportCertificateSettings::FromFile { cert, .. } } => {
            assert_eq!(cert, "certificates/cert.pem")
        }
        other => panic!("unexpected {:?}", other),
    }
}

#[test]
fn owner_predicts_and_others_interpolate() {
    let owner = PeerId { bits: 42 };
    let r = player_replication(owner);
    assert_eq!(r.replicate, NetworkTarget::All);
    assert_eq!(r.predict, NetworkTarget::Single(owner));
    assert_eq!(r.interpolate, NetworkTarget::AllExceptSingle(owner));
    for bits in [0u64, 41, 42, 43] {
        let peer = PeerId { bits };
        assert!(r.replicate.targets(peer));
        assert_ne!(r.predict.targets(peer), r.interpolate.targets(peer));
        assert_eq!(r.predict.targets(peer), bits == 42);
    }
}

#[test]
fn camera_follows_first_player_of_same_owner() {
    let players = vec![
        OwnedEntity { entity: 10, owner: Some(1) },
        OwnedEntity { entity: 11, owner: None },
        OwnedEntity { entity: 12, owner: Some(2) },
        OwnedEntity { entity: 13, owner: Some(2) },
    ];
    assert_eq!(player_for_camera(Some(2), &players), Some(12));
    assert_eq!(player_for_camera(Some(1), &players), Some(10));
    assert_eq!(player_for_camera(Some(3), &players), None);
    assert_eq!(player_for_camera(None, &players), None);
}

#[test]
fn movement_plan_follows_cameras_in_order() {
    let players = vec![
        PlayerView { entity: 5, any_pressed: false, moving: true },
        PlayerView { entity: 6, any_pressed: false, moving: false },
        PlayerView { entity: 7, any_pressed: true, moving: false },
    ];
    let cameras = vec![
        CameraView { player: 7, any_pressed: true },
        CameraView { player: 6, any_pressed: false },
        CameraView { player: 5, any_pressed: false },
    ];
    assert_eq!(
        plan_server_movement(&cameras, &players),
        vec![
            MovementStep { camera: 0, player: 2, move_camera: true, control_ball: true },
            MovementStep { camera: 1, player: 1, move_camera: false, control_ball: false },
            MovementStep { camera: 2, player: 0, move_camera: false, control_ball: true },
        ]
    );
}

#[test]
fn movement_plan_stops_at_camera_without_player() {
    let players = vec![PlayerView { entity: 5, any_pressed: true, moving: false }];
    let cameras = vec![
        CameraView { player: 5, any_pressed: false },
        CameraView { player: 9, any_pressed: true },
        CameraView { player: 5, any_pressed: true },
    ];
    assert_eq!(
        plan_server_movement(&cameras, &players),
        vec![MovementStep { camera: 0, player: 0, move_camera: false, control_ball: true }]
    );
    assert_eq!(plan_server_movement(&vec![], &players), vec![]);
}
