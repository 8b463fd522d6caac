use monkey::net::PeerId;
use monkey::player::{
    camera_bindings, hue_degrees_for_peer, player_bindings, random_color_channels, Action, Binding,
    ControlKind, KeyCode, SpecialAction,
};

#[test]
fn hue_is_thirty_degrees_per_id_modulo_360() {
    assert_eq!(hue_degrees_for_peer(PeerId { bits: 0 }), 0);
    assert_eq!(hue_degrees_for_peer(PeerId { bits: 1 }), 30);
    assert_eq!(hue_degrees_for_peer(PeerId { bits: 11 }), 330);
    assert_eq!(hue_degrees_for_peer(PeerId { bits: 12 }), 0);
    assert_eq!(hue_degrees_for_peer(PeerId { bits: 25 }), 30);
}

#[test]
fn hue_wraps_at_sixty_four_bits() {
    let bits = u64::MAX;
    let expected = (bits.wrapping_mul(30) % 360) as u16;
    assert_eq!(hue_degrees_for_peer(PeerId { bits }), expected);
    assert_ne!(expected, ((bits as u128 * 30) % 360) as u16);
}

#[test]
fn color_channels_reduce_modulo_256() {
    assert_eq!(random_color_channels([0, 255, 256]), [0, 255, 0]);
    assert_eq!(random_color_channels([u32::MAX, 513, 1000]), [255, 1, 232]);
}

#[test]
fn player_binds_jump_reset_and_move() {
    assert_eq!(
        player_bindings(),
        vec![
            (Action::Jump, Binding::Key(KeyCode::Space)),
            (Action::Reset, Binding::Key(KeyCode::KeyR)),
            (Action::Move, Binding::Wasd),
        ]
    );
}

#[test]
fn camera_binds_mouse_motion_and_wheel() {
    assert_eq!(
        camera_bindings(),
        vec![(Action::LookAround, Binding::MouseMotion), (Action::Zoom, Binding::MouseScrollY)]
    );
}

#[test]
fn bindings_match_action_kinds() {
    for (action, binding) in player_bindings().into_iter().chain(camera_bindings()) {
        assert_eq!(action.control_kind(), binding.control_kind());
    }
    assert_eq!(Action::Move.control_kind(), ControlKind::DualAxis);
    assert_eq!(Action::Zoom.control_kind(), ControlKind::Axis);
    assert_eq!(Action::Jump.control_kind(), ControlKind::Button);
    assert_eq!(SpecialAction::Brace.control_kind(), ControlKind::Button);
}
