use vstd::prelude::*;

verus! {

/// Components that the protocol replicates between server and clients.
#[derive(Clone, Copy, Debug, PartialEq, Eq, Structural)]
pub enum ReplicatedComponent {
    PlayerId,
    EntityColor,
    Transform,
    Velocity,
    CameraSettings,
}

/// How a replicated component is predicted or interpolated on a client.
#[derive(Clone, Copy, Debug, PartialEq, Eq, Structural)]
pub enum SyncMode {
    /// Copied once, when the predicted or interpolated entity appears.
    Once,
    /// Kept in step on every update.
    Full,
}

/// How one component is registered with the replication protocol.
#[derive(Clone, Copy, Debug, PartialEq, Eq, Structural)]
pub struct Registration {
    pub component: ReplicatedComponent,
    /// Prediction mode, if the component is predicted.
    pub prediction: Option<SyncMode>,
    /// Whether a mismatch between predicted and confirmed values is decided
    /// by the game's own check (for transforms: a move or a turn of at least
    /// one hundredth) rather than by inequality.
    pub custom_rollback_check: bool,
    /// Interpolation mode, if the component is interpolated.
    pub interpolation: Option<SyncMode>,
}

pub open spec fn registration(
    component: ReplicatedComponent,
    prediction: Option<SyncMode>,
    custom_rollback_check: bool,
    interpolation: Option<SyncMode>,
) -> Registration {
    Registration { component, prediction, custom_rollback_check, interpolation }
}

pub open spec fn protocol_registrations() -> Seq<Registration> {
    seq![
        registration(ReplicatedComponent::PlayerId, Some(SyncMode::Once), false, Some(SyncMode::Once)),
        registration(ReplicatedComponent::EntityColor, Some(SyncMode::Once), false, Some(SyncMode::Once)),
        registration(ReplicatedComponent::Transform, Some(SyncMode::Full), true, Some(SyncMode::Full)),
        registration(ReplicatedComponent::Velocity, Some(SyncMode::Full), false, None),
        registration(ReplicatedComponent::CameraSettings, Some(SyncMode::Full), false, Some(SyncMode::Full)),
    ]
}

/// The protocol shared by client and server.
#[derive(Clone, Copy, Debug, PartialEq, Eq, Structural)]
pub struct ProtocolPlugin;

impl ProtocolPlugin {
    /// Whether the server sends each client's inputs on to the other clients
    /// (it does, so that they can predict every player).
    pub fn rebroadcast_inputs(&self) -> (r: bool)
        ensures
            r,
    {
        true
    }

    /// The replicated components, in the order they are registered.
    /// Identity and colour are copied once; transforms, velocities and
    /// camera settings are kept in step; velocities are predicted but, not
    /// being shown, not interpolated.
    pub fn registrations(&self) -> (r: Vec<Registration>)
        ensures
            r@ == protocol_registrations(),
            forall|i: int|
                0 <= i < r.len() ==> ((#[trigger] r[i]).component != ReplicatedComponent::Velocity
                    <==> r[i].interpolation is Some),
            forall|i: int|
                0 <= i < r.len() ==> ((#[trigger] r[i]).custom_rollback_check <==> r[i].component
                    == ReplicatedComponent::Transform),
            forall|i: int|
                0 <= i < r.len() && (#[trigger] r[i]).component == ReplicatedComponent::Transform
                    ==> r[i].prediction == Some(SyncMode::Full) && r[i].interpolation == Some(SyncMode::Full),
    {
        proof {
            lemma_shown_components_interpolated();
        }
        let mut r = Vec::new();
        r.push(Registration {
            component: ReplicatedComponent::PlayerId,
            prediction: Some(SyncMode::Once),
            custom_rollback_check: false,
            interpolation: Some(SyncMode::Once),
        });
        r.push(Registration {
            component: ReplicatedComponent::EntityColor,
            prediction: Some(SyncMode::Once),
            custom_rollback_check: false,
            interpolation: Some(SyncMode::Once),
        });
        r.push(Registration {
            component: ReplicatedComponent::Transform,
            prediction: Some(SyncMode::Full),
            custom_rollback_check: true,
            interpolation: Some(SyncMode::Full),
        });
        r.push(Registration {
            component: ReplicatedComponent::Velocity,
            prediction: Some(SyncMode::Full),
            custom_rollback_check: false,
            interpolation: None,
        });
        r.push(Registration {
            component: ReplicatedComponent::CameraSettings,
            prediction: Some(SyncMode::Full),
            custom_rollback_check: false,
            interpolation: Some(SyncMode::Full),
        });
        assert(r@ =~= protocol_registrations());
        r
    }
}

/// Every component that is shown on screen (all but the velocity) is
/// interpolated; the velocity is only predicted. Transforms and camera
/// settings are kept in step in both, identity and colour are copied once,
/// and only transforms use the game's own rollback check.
pub proof fn lemma_shown_components_interpolated()
    ensures
        protocol_registrations().len() == 5,
        forall|i: int|
            0 <= i < protocol_registrations().len() ==> ((#[trigger] protocol_registrations()[i]).component
                != ReplicatedComponent::Velocity <==> protocol_registrations()[i].interpolation is Some),
        forall|i: int|
            0 <= i < protocol_registrations().len() ==> ((#[trigger] protocol_registrations()[i]).custom_rollback_check
                <==> protocol_registrations()[i].component == ReplicatedComponent::Transform),
        forall|i: int|
            0 <= i < protocol_registrations().len() ==> {
                let r = #[trigger] protocol_registrations()[i];
                &&& (r.component == ReplicatedComponent::Transform || r.component
                    == ReplicatedComponent::CameraSettings) ==> r.prediction == Some(SyncMode::Full)
                    && r.interpolation == Some(SyncMode::Full)
                &&& (r.component == ReplicatedComponent::PlayerId || r.component
                    == ReplicatedComponent::EntityColor) ==> r.prediction == Some(SyncMode::Once)
                    && r.interpolation == Some(SyncMode::Once)
                &&& r.component == ReplicatedComponent::Velocity ==> r.prediction == Some(SyncMode::Full)
            },
{
}

/// Every component is registered once, and every one is predicted.
pub proof fn lemma_registrations_distinct_and_predicted()
    ensures
        forall|i: int, j: int|
            0 <= i < j < protocol_registrations().len() ==> (#[trigger] protocol_registrations()[i]).component
                != (#[trigger] protocol_registrations()[j]).component,
        forall|i: int|
            0 <= i < protocol_registrations().len() ==> (#[trigger] protocol_registrations()[i]).prediction is Some,
{
}

} // verus!
