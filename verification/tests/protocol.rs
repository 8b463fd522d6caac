use monkey::protocol::{ProtocolPlugin, ReplicatedComponent, SyncMode};

#[test]
fn registers_five_components_in_order() {
    let r = ProtocolPlugin.registrations();
    let components: Vec<ReplicatedComponent> = r.iter().map(|x| x.component).collect();
    assert_eq!(
        components,
        vec![
            ReplicatedComponent::PlayerId,
            ReplicatedComponent::EntityColor,
            ReplicatedComponent::Transform,
            ReplicatedComponent::Velocity,
            ReplicatedComponent::CameraSettings,
        ]
    );
}

#[test]
fn only_transform_has_rollback_check_and_velocity_is_not_interpolated() {
    let r = ProtocolPlugin.registrations();
    assert!(r[2].custom_rollback_check);
    assert_eq!(r.iter().filter(|x| x.custom_rollback_check).count(), 1);
    assert_eq!(r[3].interpolation, None);
    assert_eq!(r[3].prediction, Some(SyncMode::Full));
    assert_eq!(r[0].prediction, Some(SyncMode::Once));
    assert_eq!(r[1].interpolation, Some(SyncMode::Once));
    assert!(ProtocolPlugin.rebroadcast_inputs());
}
