use vstd::prelude::*;

use crate::net::PeerId;

verus! {

/// How an action is read from its inputs.
#[derive(Clone, Copy, Debug, PartialEq, Eq, Hash, Structural)]
pub enum ControlKind {
    /// Pressed or released.
    Button,
    /// A single value along one axis.
    Axis,
    /// A pair of values, one per axis.
    DualAxis,
}

/// What a player (or the camera that follows it) can do.
#[derive(Clone, Copy, Debug, PartialEq, Eq, Hash, Structural)]
pub enum Action {
    Move,
    LookAround,
    Zoom,
    Jump,
    Reset,
}

impl Action {
    pub open spec fn kind(self) -> ControlKind {
        match self {
            Action::Move => ControlKind::DualAxis,
            Action::LookAround => ControlKind::DualAxis,
            Action::Zoom => ControlKind::Axis,
            Action::Jump => ControlKind::Button,
            Action::Reset => ControlKind::Button,
        }
    }

    /// How this action is read: moving and looking around take two axes,
    /// zooming one, jumping and resetting are buttons.
    pub fn control_kind(&self) -> (k: ControlKind)
        ensures
            k == self.kind(),
            (k == ControlKind::DualAxis) <==> (*self == Action::Move || *self == Action::LookAround),
            (k == ControlKind::Axis) <==> *self == Action::Zoom,
            (k == ControlKind::Button) <==> (*self == Action::Jump || *self == Action::Reset),
    {
        match self {
            Action::Move => ControlKind::DualAxis,
            Action::LookAround => ControlKind::DualAxis,
            Action::Zoom => ControlKind::Axis,
            Action::Jump => ControlKind::Button,
            Action::Reset => ControlKind::Button,
        }
    }
}

/// Further actions, all of them buttons.
#[derive(Clone, Copy, Debug, PartialEq, Eq, Hash, Structural)]
pub enum SpecialAction {
    Primary,
    Secondary,
    Brace,
    Special,
}

impl SpecialAction {
    /// Every special action is a button.
    pub fn control_kind(&self) -> (k: ControlKind)
        ensures
            k == ControlKind::Button,
    {
        ControlKind::Button
    }
}

/// The levels of the game.
#[derive(Clone, Copy, Debug, PartialEq, Eq, Structural)]
pub enum Levels {
    PlainGrass,
    BallPit,
    Castle,
    MudPit,
    IceAndSnow,
    Pilars,
}

/// Abilities a player can be given.
#[derive(Clone, Copy, Debug, PartialEq, Eq, Structural)]
pub enum Abilities {
    Brace,
    Fist,
    BidenBlast,
    AlreadyDead,
    GraplingHook,
    /// Stick to the ground, killing momentum and rotation; broken by a hit
    /// with enough force.
    NormalBrace,
    /// Quickly remove momentum and rotation and levitate, letting rotation
    /// build up until released.
    LeviBrace,
}

/// Keyboard keys that the game binds.
#[derive(Clone, Copy, Debug, PartialEq, Eq, Hash, Structural)]
pub enum KeyCode {
    Space,
    KeyR,
}

/// A physical input that an action is bound to.
#[derive(Clone, Copy, Debug, PartialEq, Eq, Hash, Structural)]
pub enum Binding {
    /// A single key.
    Key(KeyCode),
    /// The W, A, S and D keys read as a direction pad (with a circular
    /// dead zone of one tenth).
    Wasd,
    /// Motion of the mouse (with a circular dead zone and a sensitivity of
    /// one tenth).
    MouseMotion,
    /// The vertical axis of the mouse wheel.
    MouseScrollY,
}

impl Binding {
    pub open spec fn kind(self) -> ControlKind {
        match self {
            Binding::Key(_) => ControlKind::Button,
            Binding::Wasd => ControlKind::DualAxis,
            Binding::MouseMotion => ControlKind::DualAxis,
            Binding::MouseScrollY => ControlKind::Axis,
        }
    }

    /// The kind of value this input yields.
    pub fn control_kind(&self) -> (k: ControlKind)
        ensures
            k == self.kind(),
            (k == ControlKind::DualAxis) <==> (*self == Binding::Wasd || *self == Binding::MouseMotion),
            (k == ControlKind::Axis) <==> *self == Binding::MouseScrollY,
            (k == ControlKind::Button) <==> (*self is Key),
    {
        match self {
            Binding::Key(_) => ControlKind::Button,
            Binding::Wasd => ControlKind::DualAxis,
            Binding::MouseMotion => ControlKind::DualAxis,
            Binding::MouseScrollY => ControlKind::Axis,
        }
    }
}

pub open spec fn player_bindings_spec() -> Seq<(Action, Binding)> {
    seq![
        (Action::Jump, Binding::Key(KeyCode::Space)),
        (Action::Reset, Binding::Key(KeyCode::KeyR)),
        (Action::Move, Binding::Wasd),
    ]
}

pub open spec fn camera_bindings_spec() -> Seq<(Action, Binding)> {
    seq![(Action::LookAround, Binding::MouseMotion), (Action::Zoom, Binding::MouseScrollY)]
}

/// The input map of a player's cube: space jumps, R resets, WASD moves.
pub fn player_bindings() -> (b: Vec<(Action, Binding)>)
    ensures
        b@ == player_bindings_spec(),
{
    let mut b = Vec::new();
    b.push((Action::Jump, Binding::Key(KeyCode::Space)));
    b.push((Action::Reset, Binding::Key(KeyCode::KeyR)));
    b.push((Action::Move, Binding::Wasd));
    assert(b@ =~= player_bindings_spec());
    b
}

/// The input map of a camera: the mouse looks around, the wheel zooms.
pub fn camera_bindings() -> (b: Vec<(Action, Binding)>)
    ensures
        b@ == camera_bindings_spec(),
{
    let mut b = Vec::new();
    b.push((Action::LookAround, Binding::MouseMotion));
    b.push((Action::Zoom, Binding::MouseScrollY));
    assert(b@ =~= camera_bindings_spec());
    b
}

/// Moving and looking around read two axes (a stick, the WASD pad, the
/// mouse's motion), zooming reads one (the wheel), and jumping and
/// resetting are buttons (keys).
pub proof fn lemma_control_kinds()
    ensures
        Action::Move.kind() == ControlKind::DualAxis,
        Action::LookAround.kind() == ControlKind::DualAxis,
        Action::Zoom.kind() == ControlKind::Axis,
        Action::Jump.kind() == ControlKind::Button,
        Action::Reset.kind() == ControlKind::Button,
        Binding::Wasd.kind() == ControlKind::DualAxis,
        Binding::MouseMotion.kind() == ControlKind::DualAxis,
        Binding::MouseScrollY.kind() == ControlKind::Axis,
        Binding::Key(KeyCode::Space).kind() == ControlKind::Button,
        Binding::Key(KeyCode::KeyR).kind() == ControlKind::Button,
{
}

/// Space jumps, R resets and the WASD pad moves the cube; the mouse looks
/// around and the wheel zooms. No input is bound to two actions.
pub proof fn lemma_binding_inputs()
    ensures
        player_bindings_spec().contains((Action::Jump, Binding::Key(KeyCode::Space))),
        player_bindings_spec().contains((Action::Reset, Binding::Key(KeyCode::KeyR))),
        player_bindings_spec().contains((Action::Move, Binding::Wasd)),
        camera_bindings_spec().contains((Action::LookAround, Binding::MouseMotion)),
        camera_bindings_spec().contains((Action::Zoom, Binding::MouseScrollY)),
        forall|i: int, j: int|
            0 <= i < j < player_bindings_spec().len() ==> (#[trigger] player_bindings_spec()[i]).1
                != (#[trigger] player_bindings_spec()[j]).1,
        forall|i: int, j: int|
            0 <= i < player_bindings_spec().len() && 0 <= j < camera_bindings_spec().len()
                ==> (#[trigger] player_bindings_spec()[i]).1 != (#[trigger] camera_bindings_spec()[j]).1,
{
    assert(player_bindings_spec()[0] == (Action::Jump, Binding::Key(KeyCode::Space)));
    assert(player_bindings_spec()[1] == (Action::Reset, Binding::Key(KeyCode::KeyR)));
    assert(player_bindings_spec()[2] == (Action::Move, Binding::Wasd));
    assert(camera_bindings_spec()[0] == (Action::LookAround, Binding::MouseMotion));
    assert(camera_bindings_spec()[1] == (Action::Zoom, Binding::MouseScrollY));
}

/// Every action is bound to an input of its own kind, and no action is bound
/// twice, in either input map; the two maps share no action.
pub proof fn lemma_bindings_well_formed()
    ensures
        forall|i: int|
            0 <= i < player_bindings_spec().len() ==> (#[trigger] player_bindings_spec()[i]).0.kind()
                == player_bindings_spec()[i].1.kind(),
        forall|i: int|
            0 <= i < camera_bindings_spec().len() ==> (#[trigger] camera_bindings_spec()[i]).0.kind()
                == camera_bindings_spec()[i].1.kind(),
        forall|i: int, j: int|
            0 <= i < j < player_bindings_spec().len() ==> (#[trigger] player_bindings_spec()[i]).0
                != (#[trigger] player_bindings_spec()[j]).0,
        forall|i: int, j: int|
            0 <= i < j < camera_bindings_spec().len() ==> (#[trigger] camera_bindings_spec()[i]).0
                != (#[trigger] camera_bindings_spec()[j]).0,
        forall|i: int, j: int|
            0 <= i < player_bindings_spec().len() && 0 <= j < camera_bindings_spec().len()
                ==> (#[trigger] player_bindings_spec()[i]).0 != (#[trigger] camera_bindings_spec()[j]).0,
{
}

/// Whether a player gives input in this update: some action is pressed or
/// the move stick is off centre. Only then is its cube driven.
pub fn player_has_input(any_pressed: bool, moving: bool) -> (r: bool)
    ensures
        r == (any_pressed || moving),
{
    any_pressed || moving
}

/// Marks the entity that a peer controls.
#[derive(Clone, Copy, Debug, PartialEq, Eq, Structural)]
pub struct PlayerId(pub PeerId);

/// The hue, in whole degrees, of the colour a peer is given: thirty times its
/// identifier, with 64-bit wrap-around, modulo 360.
pub open spec fn peer_hue_degrees(bits: u64) -> int {
    (bits as int * 30) % 0x1_0000_0000_0000_0000 % 360
}

/// Hue in degrees of the colour generated from a peer's identifier; the
/// colour is this hue at full saturation and half lightness.
pub fn hue_degrees_for_peer(peer: PeerId) -> (hue: u16)
    ensures
        hue as int == peer_hue_degrees(peer.bits),
        hue < 360,
{
    let scaled: u64 = peer.bits.wrapping_mul(30);
    (scaled % 360) as u16
}

/// Peers whose identifiers are below 2^64 / 30 get the hue 30 * (id mod 12):
/// twelve hues, thirty degrees apart, taken in turn.
pub proof fn lemma_hue_cycles_every_twelve(bits: u64)
    requires
        bits as int * 30 < 0x1_0000_0000_0000_0000,
    ensures
        peer_hue_degrees(bits) == 30 * (bits as int % 12),
{
    let b = bits as int;
    assert((b * 30) % 0x1_0000_0000_0000_0000 == b * 30) by (nonlinear_arith)
        requires
            0 <= b * 30 < 0x1_0000_0000_0000_0000,
    ;
    assert((b * 30) % 360 == 30 * (b % 12)) by (nonlinear_arith)
        requires
            b >= 0,
    ;
}

/// The red, green and blue channels of a randomly coloured cube: each is a
/// random 32-bit draw reduced modulo 256.
pub fn random_color_channels(draws: [u32; 3]) -> (rgb: [u8; 3])
    ensures
        forall|i: int| 0 <= i < 3 ==> rgb[i] as int == draws[i] as int % 256,
{
    let r: u8 = (draws[0] % 256) as u8;
    let g: u8 = (draws[1] % 256) as u8;
    let b: u8 = (draws[2] % 256) as u8;
    let rgb = [r, g, b];
    assert(rgb@[0] == r && rgb@[1] == g && rgb@[2] == b);
    rgb
}

} // verus!
