use vstd::prelude::*;

use crate::player::player_has_input;
use crate::net::{NetworkTarget, PeerId, SharedSettings, SocketAddress, unspecified_v4};
use crate::private_key::PRIVATE_KEY_BYTES;
use crate::text::{split_on, split_on_char};

verus! {

/// Where the server's WebTransport certificate comes from.
#[derive(Debug)]
pub enum WebTransportCertificateSettings {
    /// Generate a self-signed certificate with the given subject alternative
    /// names, e.g. `["example.com", "*.gameserver.example.org", "10.1.2.3", "::1"]`.
    AutoSelfSigned(Vec<String>),
    /// Load certificate PEM files from disk.
    FromFile {
        /// Path to the certificate `.pem` file.
        cert: String,
        /// Path to the private key `.pem` file.
        key: String,
    },
}

pub open spec fn default_sans() -> Seq<Seq<char>> {
    seq!["localhost"@, "127.0.0.1"@, "::1"@]
}

impl Default for WebTransportCertificateSettings {
    /// A self-signed certificate for the local host: `localhost`,
    /// `127.0.0.1` and `::1`.
    fn default() -> (s: Self)
        ensures
            s matches WebTransportCertificateSettings::AutoSelfSigned(sans) && sans.deep_view()
                == default_sans(),
    {
        let mut sans: Vec<String> = Vec::new();
        sans.push("localhost".to_owned());
        sans.push("127.0.0.1".to_owned());
        sans.push("::1".to_owned());
        assert(sans.deep_view() =~= default_sans());
        WebTransportCertificateSettings::AutoSelfSigned(sans)
    }
}

/// The name added for a server that runs on the Edgegap platform.
pub open spec fn edgegap_wildcard() -> Seq<char> {
    "*.pr.edgegap.net"@
}

/// The names a self-signed certificate is made for: the configured ones;
/// then, on Edgegap (when its public address is known), that address and
/// the Edgegap wildcard; then each comma-separated entry of the extra list,
/// when one is given.
pub open spec fn self_signed_sans_spec(
    configured: Seq<Seq<char>>,
    public_ip: Option<Seq<char>>,
    extra: Option<Seq<char>>,
) -> Seq<Seq<char>> {
    let with_ip = match public_ip {
        Some(ip) => configured.push(ip).push(edgegap_wildcard()),
        None => configured,
    };
    match extra {
        Some(list) => with_ip + split_on(list, ','),
        None => with_ip,
    }
}

/// The configured names all come first, in order; nothing else is added
/// unless an Edgegap address or an extra list is given. The Edgegap address
/// and wildcard follow the configured names, and the extra list's entries
/// come last.
pub proof fn lemma_self_signed_sans_keeps_configured(
    configured: Seq<Seq<char>>,
    public_ip: Option<Seq<char>>,
    extra: Option<Seq<char>>,
)
    ensures
        self_signed_sans_spec(configured, public_ip, extra).len() >= configured.len(),
        self_signed_sans_spec(configured, public_ip, extra).take(configured.len() as int) == configured,
        self_signed_sans_spec(configured, None, None) == configured,
        public_ip matches Some(ip) ==> {
            &&& self_signed_sans_spec(configured, public_ip, extra)[configured.len() as int] == ip
            &&& self_signed_sans_spec(configured, public_ip, extra)[configured.len() as int + 1]
                == "*.pr.edgegap.net"@
        },
        public_ip is None ==> self_signed_sans_spec(configured, public_ip, extra).skip(
            configured.len() as int,
        ) == match extra {
            Some(list) => split_on(list, ','),
            None => Seq::<Seq<char>>::empty(),
        },
{
    let r = self_signed_sans_spec(configured, public_ip, extra);
    crate::text::lemma_split_on_nonempty(match extra { Some(l) => l, None => Seq::empty() }, ',');
    assert(r.take(configured.len() as int) =~= configured);
    if public_ip is None {
        assert(r.skip(configured.len() as int) =~= match extra {
            Some(list) => split_on(list, ','),
            None => Seq::<Seq<char>>::empty(),
        });
    }
}

fn clone_strings(v: &Vec<String>) -> (r: Vec<String>)
    ensures
        r.deep_view() == v.deep_view(),
{
    let mut r: Vec<String> = Vec::new();
    let mut i: usize = 0;
    while i < v.len()
        invariant
            i <= v.len(),
            r.deep_view() == v.deep_view().take(i as int),
        decreases v.len() - i,
    {
        let s = v[i].clone();
        r.push(s);
        proof {
            assert(v.deep_view().take(i + 1) =~= v.deep_view().take(i as int).push(v[i as int]@));
        }
        i = i + 1;
    }
    assert(v.deep_view().take(v.len() as int) =~= v.deep_view());
    r
}

/// Builds the subject alternative names of a self-signed certificate from
/// the configured ones, the public address reported by Edgegap (if any) and
/// an extra comma-separated list (if any).
pub fn self_signed_sans(configured: &Vec<String>, public_ip: Option<&str>, extra: Option<&str>) -> (sans: Vec<String>)
    ensures
        sans.deep_view() == self_signed_sans_spec(
            configured.deep_view(),
            match public_ip {
                Some(ip) => Some(ip@),
                None => None,
            },
            match extra {
                Some(list) => Some(list@),
                None => None,
            },
        ),
        sans.len() >= configured.len(),
        sans.deep_view().take(configured.len() as int) == configured.deep_view(),
        public_ip is None && extra is None ==> sans.deep_view() == configured.deep_view(),
{
    proof {
        lemma_self_signed_sans_keeps_configured(
            configured.deep_view(),
            match public_ip {
                Some(ip) => Some(ip@),
                None => None,
            },
            match extra {
                Some(list) => Some(list@),
                None => None,
            },
        );
    }
    let mut sans = clone_strings(configured);
    if let Some(ip) = public_ip {
        sans.push(ip.to_owned());
        sans.push("*.pr.edgegap.net".to_owned());
    }
    if let Some(list) = extra {
        let mut pieces = split_on_char(list, ',');
        let ghost before = sans.deep_view();
        sans.append(&mut pieces);
        assert(sans.deep_view() =~= before + split_on(list@, ','));
    }
    sans
}

/// How the server accepts connections.
#[derive(Debug)]
#[non_exhaustive]
pub enum ServerTransports {
    WebTransport { local_port: u16, certificate: WebTransportCertificateSettings },
}

/// Settings from which the server entity is set up.
#[derive(Debug)]
pub struct CubeServer {
    /// Which transport to use.
    pub transport: ServerTransports,
    pub shared: SharedSettings,
}

/// How the server's input and output is done.
#[derive(Debug)]
pub enum ServerIo {
    WebTransport { certificate: WebTransportCertificateSettings },
}

/// What the server entity is given when its settings are added.
#[derive(Debug)]
pub struct ServerConnection {
    /// The netcode protocol id.
    pub protocol_id: u64,
    /// The key with which the netcode server checks connect tokens.
    pub private_key: [u8; PRIVATE_KEY_BYTES],
    /// The address it listens on.
    pub local_addr: SocketAddress,
    pub io: ServerIo,
}

pub open spec fn server_cert_path() -> Seq<char> {
    "certificates/cert.pem"@
}

pub open spec fn server_key_path() -> Seq<char> {
    "certificates/key.pem"@
}

impl CubeServer {
    /// A server on `local_port` over WebTransport, with the certificate read
    /// from `certificates/cert.pem` and its key from `certificates/key.pem`.
    pub fn new_web_transport(local_port: u16, shared: SharedSettings) -> (s: CubeServer)
        ensures
            s.shared == shared,
            match s.transport {
                ServerTransports::WebTransport { local_port: p, certificate } => {
                    &&& p == local_port
                    &&& certificate matches WebTransportCertificateSettings::FromFile { cert, key }
                    &&& cert@ == server_cert_path()
                    &&& key@ == server_key_path()
                },
            },
    {
        CubeServer {
            transport: ServerTransports::WebTransport {
                local_port,
                certificate: WebTransportCertificateSettings::FromFile {
                    cert: "certificates/cert.pem".to_owned(),
                    key: "certificates/key.pem".to_owned(),
                },
            },
            shared,
        }
    }

    /// The key the netcode server uses: the one given in the environment if
    /// there is one, else the one in the shared settings.
    pub fn netcode_private_key(&self, env_key: Option<[u8; PRIVATE_KEY_BYTES]>) -> (key: [u8; PRIVATE_KEY_BYTES])
        ensures
            key == match env_key {
                Some(k) => k,
                None => self.shared.private_key,
            },
    {
        match env_key {
            Some(k) => k,
            None => self.shared.private_key,
        }
    }

    /// What the server entity becomes: a netcode server with the shared
    /// protocol id and the key chosen by `netcode_private_key`, listening on
    /// `0.0.0.0` at the transport's port, over the transport's I/O.
    pub fn into_connection(self, env_key: Option<[u8; PRIVATE_KEY_BYTES]>) -> (c: ServerConnection)
        ensures
            c.protocol_id == self.shared.protocol_id,
            c.private_key == match env_key {
                Some(k) => k,
                None => self.shared.private_key,
            },
            c.local_addr.ip == unspecified_v4(),
            match self.transport {
                ServerTransports::WebTransport { local_port, certificate } => {
                    &&& c.local_addr.port == local_port
                    &&& c.io == ServerIo::WebTransport { certificate }
                },
            },
    {
        let private_key = self.netcode_private_key(env_key);
        let protocol_id = self.shared.protocol_id;
        match self.transport {
            ServerTransports::WebTransport { local_port, certificate } => ServerConnection {
                protocol_id,
                private_key,
                local_addr: SocketAddress::any_interface(local_port),
                io: ServerIo::WebTransport { certificate },
            },
        }
    }
}

/// The replication targets of a newly connected client's player entity.
#[derive(Clone, Copy, Debug, PartialEq, Eq, Structural)]
pub struct PlayerReplication {
    /// Who receives the entity.
    pub replicate: NetworkTarget,
    /// Who predicts it.
    pub predict: NetworkTarget,
    /// Who interpolates it.
    pub interpolate: NetworkTarget,
}

/// The targets of a new player's entity: every client receives it; its
/// owner predicts it and every other client interpolates it.
pub open spec fn player_replication_spec(owner: PeerId) -> PlayerReplication {
    PlayerReplication {
        replicate: NetworkTarget::All,
        predict: NetworkTarget::Single(owner),
        interpolate: NetworkTarget::AllExceptSingle(owner),
    }
}

/// The replication targets of the player entity of the client `owner`.
pub fn player_replication(owner: PeerId) -> (r: PlayerReplication)
    ensures
        r == player_replication_spec(owner),
{
    PlayerReplication {
        replicate: NetworkTarget::All,
        predict: NetworkTarget::Single(owner),
        interpolate: NetworkTarget::AllExceptSingle(owner),
    }
}

/// Every client receives a new player; its owner predicts it and every
/// other client interpolates it, so each client does exactly one of the two.
pub proof fn lemma_player_replication_partitions_peers(owner: PeerId, peer: PeerId)
    ensures
        player_replication_spec(owner).replicate.includes(peer),
        player_replication_spec(owner).predict.includes(peer) <==> peer == owner,
        player_replication_spec(owner).interpolate.includes(peer) <==> peer != owner,
        player_replication_spec(owner).predict.includes(peer) != player_replication_spec(
            owner,
        ).interpolate.includes(peer),
{
}

/// An entity and the connection that controls it, if any.
#[derive(Clone, Copy, Debug, PartialEq, Eq, Structural)]
pub struct OwnedEntity {
    /// The entity, in its 64-bit form.
    pub entity: u64,
    /// The connection entity that controls it, in its 64-bit form.
    pub owner: Option<u64>,
}

/// `j` is the first of `players` controlled by `owner`.
pub open spec fn is_first_owned_by(players: Seq<OwnedEntity>, owner: u64, j: int) -> bool {
    &&& 0 <= j < players.len()
    &&& players[j].owner == Some(owner)
    &&& forall|k: int| 0 <= k < j ==> (#[trigger] players[k]).owner != Some(owner)
}

/// The player that a newly added camera follows: the first player entity
/// controlled by the same connection as the camera. A camera that nobody
/// controls, or whose controller has no player, follows none.
pub fn player_for_camera(camera_owner: Option<u64>, players: &Vec<OwnedEntity>) -> (r: Option<u64>)
    ensures
        match camera_owner {
            None => r is None,
            Some(owner) => match r {
                None => forall|k: int| 0 <= k < players.len() ==> (#[trigger] players[k]).owner != Some(owner),
                Some(e) => exists|j: int| is_first_owned_by(players@, owner, j) && players[j].entity == e,
            },
        },
{
    let owner = match camera_owner {
        Some(o) => o,
        None => {
            return None;
        },
    };
    let mut i: usize = 0;
    while i < players.len()
        invariant
            camera_owner == Some(owner),
            i <= players.len(),
            forall|k: int| 0 <= k < i ==> (#[trigger] players[k]).owner != Some(owner),
        decreases players.len() - i,
    {
        let candidate = players[i];
        let matches = match candidate.owner {
            Some(o) => o == owner,
            None => false,
        };
        if matches {
            assert(is_first_owned_by(players@, owner, i as int));
            return Some(candidate.entity);
        }
        i = i + 1;
    }
    None
}

/// What the server sees of a camera in a fixed update.
#[derive(Clone, Copy, Debug, PartialEq, Eq, Structural)]
pub struct CameraView {
    /// The player entity the camera follows, in its 64-bit form.
    pub player: u64,
    /// Whether any of the camera's actions is pressed.
    pub any_pressed: bool,
}

/// What the server sees of a player it moves in a fixed update.
#[derive(Clone, Copy, Debug, PartialEq, Eq, Structural)]
pub struct PlayerView {
    /// The entity, in its 64-bit form.
    pub entity: u64,
    /// Whether any of the player's actions is pressed.
    pub any_pressed: bool,
    /// Whether the player's move stick is off centre.
    pub moving: bool,
}

/// What the server does for one camera.
#[derive(Clone, Copy, Debug, PartialEq, Eq, Structural)]
pub struct MovementStep {
    /// Index of the camera.
    pub camera: usize,
    /// Index of the player it follows.
    pub player: usize,
    /// Whether the camera is moved around its player.
    pub move_camera: bool,
    /// Whether the player's cube is driven by its input, after the camera
    /// has moved.
    pub control_ball: bool,
}

/// `j` is the first player whose entity is `entity`.
pub open spec fn is_first_with_entity(players: Seq<PlayerView>, entity: u64, j: int) -> bool {
    &&& 0 <= j < players.len()
    &&& players[j].entity == entity
    &&& forall|k: int| 0 <= k < j ==> (#[trigger] players[k]).entity != entity
}

pub open spec fn has_player(players: Seq<PlayerView>, entity: u64) -> bool {
    exists|k: int| 0 <= k < players.len() && (#[trigger] players[k]).entity == entity
}

/// A player has input when an action is pressed or the stick is moved.
pub open spec fn has_input(p: PlayerView) -> bool {
    p.any_pressed || p.moving
}

/// The step for camera `i` when it follows player `j`.
pub open spec fn step_for(cameras: Seq<CameraView>, players: Seq<PlayerView>, i: int, j: int) -> MovementStep {
    MovementStep {
        camera: i as usize,
        player: j as usize,
        move_camera: cameras[i].any_pressed,
        control_ball: has_input(players[j]),
    }
}

/// A camera is moved exactly when one of its own actions is pressed,
/// whatever its player does; a cube is driven exactly when some action of
/// its player is pressed or its stick is off centre, whatever the camera
/// does. Each step belongs to its camera and to that camera's player.
pub proof fn lemma_movement_step_decisions(cameras: Seq<CameraView>, players: Seq<PlayerView>)
    ensures
        forall|i: int, j: int|
            #![trigger step_for(cameras, players, i, j)]
            0 <= i < cameras.len() && 0 <= j < players.len() ==> {
                &&& step_for(cameras, players, i, j).move_camera == cameras[i].any_pressed
                &&& step_for(cameras, players, i, j).control_ball == (players[j].any_pressed
                    || players[j].moving)
            },
        forall|e: u64, j: int| #[trigger] is_first_with_entity(players, e, j) ==> has_player(players, e)
            && players[j].entity == e,
{
    assert forall|e: u64, j: int| #[trigger] is_first_with_entity(players, e, j) implies has_player(players, e)
        && players[j].entity == e by {
        assert(players[j].entity == e);
    }
}

fn find_player(players: &Vec<PlayerView>, entity: u64) -> (r: Option<usize>)
    ensures
        match r {
            None => !has_player(players@, entity),
            Some(j) => is_first_with_entity(players@, entity, j as int),
        },
{
    let mut i: usize = 0;
    while i < players.len()
        invariant
            i <= players.len(),
            forall|k: int| 0 <= k < i ==> (#[trigger] players[k]).entity != entity,
        decreases players.len() - i,
    {
        if players[i].entity == entity {
            return Some(i);
        }
        i = i + 1;
    }
    None
}

/// Plans the server's movement of cameras and players for one fixed update.
///
/// Cameras are taken in order. Each one's player is looked up; if it is not
/// among the players, nothing more is done in this update. Otherwise the
/// camera is moved when one of its actions is pressed, and the player's cube
/// is driven when the player has input.
pub fn plan_server_movement(cameras: &Vec<CameraView>, players: &Vec<PlayerView>) -> (steps: Vec<MovementStep>)
    ensures
        steps.len() <= cameras.len(),
        forall|i: int|
            0 <= i < steps.len() ==> is_first_with_entity(players@, cameras[i].player, (#[trigger] steps[i]).player as int)
                && steps[i] == step_for(cameras@, players@, i, steps[i].player as int),
        steps.len() < cameras.len() ==> !has_player(players@, cameras[steps.len() as int].player),
        forall|i: int|
            #![trigger steps[i]]
            0 <= i < steps.len() ==> {
                &&& steps[i].camera == i
                &&& steps[i].player < players.len()
                &&& players[steps[i].player as int].entity == cameras[i].player
                &&& steps[i].move_camera == cameras[i].any_pressed
                &&& steps[i].control_ball == (players[steps[i].player as int].any_pressed
                    || players[steps[i].player as int].moving)
            },
        forall|i: int| 0 <= i < steps.len() ==> has_player(players@, #[trigger] cameras[i].player),
{
    proof {
        lemma_movement_step_decisions(cameras@, players@);
    }
    let mut steps: Vec<MovementStep> = Vec::new();
    let mut i: usize = 0;
    while i < cameras.len()
        invariant
            i <= cameras.len(),
            steps.len() == i,
            forall|k: int|
                0 <= k < steps.len() ==> is_first_with_entity(players@, cameras[k].player, (#[trigger] steps[k]).player as int)
                    && steps[k] == step_for(cameras@, players@, k, steps[k].player as int),
            forall|k: int| 0 <= k < steps.len() ==> has_player(players@, #[trigger] cameras[k].player),
        decreases cameras.len() - i,
    {
        let camera = cameras[i];
        match find_player(players, camera.player) {
            None => {
                return steps;
            },
            Some(j) => {
                assert(players[j as int].entity == camera.player);
                assert(has_player(players@, cameras[i as int].player));
                let player = players[j];
                steps.push(MovementStep {
                    camera: i,
                    player: j,
                    move_camera: camera.any_pressed,
                    control_ball: player_has_input(player.any_pressed, player.moving),
                });
            },
        }
        i = i + 1;
    }
    steps
}

} // verus!
