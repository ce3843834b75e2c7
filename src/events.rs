use vstd::prelude::*;

verus! {

/// A rigid-body transform as decoded from the replay; carried through unchanged.
#[verifier::external_type_specification]
#[verifier::external_body]
pub struct ExRigidBody(boxcars::RigidBody);

/// A camera profile as decoded from the replay; carried through unchanged.
#[verifier::external_type_specification]
#[verifier::external_body]
pub struct ExCamSettings(boxcars::CamSettings);

/// A pair of car loadouts as decoded from the replay; carried through unchanged.
#[verifier::external_type_specification]
#[verifier::external_body]
pub struct ExTeamLoadout(boxcars::TeamLoadout);

/// The value carried by one attribute update, reduced to the shapes that
/// reconstruction reads.
pub enum AttrValue {
    /// A reference to another actor, with the flag that says whether the link holds.
    ActorRef { actor: i32, active: bool },
    Text(String),
    RigidBody(boxcars::RigidBody),
    CameraProfile(boxcars::CamSettings),
    Loadout(boxcars::TeamLoadout),
    /// Every other shape: kept in the log, read by nothing.
    Opaque,
}


/// A copy of `v`.
pub fn copy_value(v: &AttrValue) -> (r: AttrValue)
    ensures
        r == *v,
{
    match v {
        AttrValue::ActorRef { actor, active } => AttrValue::ActorRef { actor: *actor, active: *active },
        AttrValue::Text(t) => AttrValue::Text(t.clone()),
        AttrValue::RigidBody(b) => AttrValue::RigidBody(*b),
        AttrValue::CameraProfile(c) => AttrValue::CameraProfile(*c),
        AttrValue::Loadout(l) => AttrValue::Loadout(*l),
        AttrValue::Opaque => AttrValue::Opaque,
    }
}

/// An actor that appeared in a frame, with indices into the session's name
/// and object tables.
pub struct NewActor {
    pub id: i32,
    pub name_index: Option<i32>,
    pub object_index: i32,
}

/// One attribute update of an actor; the key is an index into the object table.
pub struct UpdatedActor {
    pub id: i32,
    pub object_index: i32,
    pub value: AttrValue,
}

/// What one frame of the network stream reports.
pub struct Frame {
    pub new_actors: Vec<NewActor>,
    pub updated_actors: Vec<UpdatedActor>,
    pub deleted_actors: Vec<i32>,
}

/// The decoded network stream: the session's tables and its frames in order.
pub struct Stream {
    pub names: Vec<String>,
    pub objects: Vec<String>,
    pub frames: Vec<Frame>,
}

} // verus!
