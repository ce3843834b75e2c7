use vstd::prelude::*;

use crate::events::AttrValue;
use crate::registry::{parent_linked, player_named, Actor, ActorUpdate, Registry};
use crate::timeline::{
    attributed_to, ball_archetype, ball_track, car_archetype, claimed, first_camera, first_loadout,
    player_track, rigid_body_key,
};

verus! {

/// In every state of a well-formed registry, a chain of ownership links
/// component → car → player-info whose end has a player is resolved all along:
/// the order in which the links and the naming arrived does not matter.
pub proof fn lemma_chain_resolved(reg: &Registry, component: usize, car: usize, info: usize)
    requires
        reg.wf(),
        component < reg.actors@.len(),
        car < reg.actors@.len(),
        info < reg.actors@.len(),
        reg.actors@[component as int].parent == Some(car),
        reg.actors@[car as int].parent == Some(info),
        reg.actors@[info as int].player is Some,
    ensures
        reg.actors@[car as int].player is Some,
        reg.actors@[component as int].player is Some,
{
    assert(reg.actors@[car as int].parent == Some(info));
    assert(reg.actors@[component as int].parent == Some(car));
}

/// Every ball position comes from a rigid-body state update of an actor of the ball
/// archetype, made in that frame with that transform; so no car's update
/// ever lands in the ball's timeline.
pub proof fn lemma_ball_track_from_balls(actors: Seq<Actor>, log: Seq<ActorUpdate>)
    ensures
        forall|k: int|
            0 <= k < ball_track(actors, log).len() ==> exists|e: int|
                0 <= e < log.len() && (#[trigger] log[e]).frame == (#[trigger] ball_track(actors, log)[k]).0
                    && log[e].value == AttrValue::RigidBody(ball_track(actors, log)[k].1)
                    && log[e].attribute_name@ == rigid_body_key()
                    && actors[log[e].slot as int].archetype@ == ball_archetype()
                    && actors[log[e].slot as int].archetype@ != car_archetype(),
    decreases log.len(),
{
    reveal_strlit("Archetypes.Ball.Ball_Default");
    reveal_strlit("Archetypes.Car.Car_Default");
    assert(ball_archetype()[11] != car_archetype()[11]);
    if log.len() > 0 {
        let prev = log.drop_last();
        lemma_ball_track_from_balls(actors, prev);
        let t = ball_track(actors, log);
        let tp = ball_track(actors, prev);
        assert forall|k: int| 0 <= k < t.len() implies exists|e: int|
            0 <= e < log.len() && (#[trigger] log[e]).frame == (#[trigger] t[k]).0
                && log[e].value == AttrValue::RigidBody(t[k].1)
                && log[e].attribute_name@ == rigid_body_key()
                && actors[log[e].slot as int].archetype@ == ball_archetype()
                && actors[log[e].slot as int].archetype@ != car_archetype() by {
            if k < tp.len() {
                assert(t[k] == tp[k]);
                let e = choose|e: int|
                    0 <= e < prev.len() && (#[trigger] prev[e]).frame == (#[trigger] tp[k]).0
                        && prev[e].value == AttrValue::RigidBody(tp[k].1)
                        && prev[e].attribute_name@ == rigid_body_key()
                        && actors[prev[e].slot as int].archetype@ == ball_archetype()
                        && actors[prev[e].slot as int].archetype@ != car_archetype();
                assert(log[e] == prev[e]);
            } else {
                assert(log[log.len() - 1] == log.last());
            }
        }
    }
}

/// A car attributed to `name` that logged a transform gives the player a
/// timeline; an attributed camera profile and loadout give them a camera and
/// a loadout.
pub proof fn lemma_round_trip(
    actors: Seq<Actor>,
    log: Seq<ActorUpdate>,
    name: Seq<char>,
    transform: int,
    camera: int,
    loadout: int,
)
    requires
        0 <= transform < log.len(),
        0 <= camera < log.len(),
        0 <= loadout < log.len(),
        log[transform].value is RigidBody,
        log[transform].attribute_name@ == rigid_body_key(),
        actors[log[transform].slot as int].archetype@ == car_archetype(),
        attributed_to(actors, log[transform].slot as int, name),
        log[camera].value is CameraProfile,
        attributed_to(actors, log[camera].slot as int, name),
        log[loadout].value is Loadout,
        attributed_to(actors, log[loadout].slot as int, name),
    ensures
        player_track(actors, log, name).len() > 0,
        first_camera(actors, log, name) is Some,
        first_loadout(actors, log, name) is Some,
    decreases log.len(),
{
    lemma_track_grows(actors, log, name, transform);
    lemma_camera_found(actors, log, name, camera);
    lemma_loadout_found(actors, log, name, loadout);
}

proof fn lemma_track_grows(actors: Seq<Actor>, log: Seq<ActorUpdate>, name: Seq<char>, e: int)
    requires
        0 <= e < log.len(),
        log[e].value is RigidBody,
        log[e].attribute_name@ == rigid_body_key(),
        actors[log[e].slot as int].archetype@ == car_archetype(),
        attributed_to(actors, log[e].slot as int, name),
    ensures
        player_track(actors, log, name).len() > 0,
    decreases log.len(),
{
    if e < log.len() - 1 {
        assert(log.drop_last()[e] == log[e]);
        lemma_track_grows(actors, log.drop_last(), name, e);
    }
}

proof fn lemma_camera_found(actors: Seq<Actor>, log: Seq<ActorUpdate>, name: Seq<char>, e: int)
    requires
        0 <= e < log.len(),
        log[e].value is CameraProfile,
        attributed_to(actors, log[e].slot as int, name),
    ensures
        first_camera(actors, log, name) is Some,
    decreases log.len(),
{
    if e < log.len() - 1 {
        assert(log.drop_last()[e] == log[e]);
        lemma_camera_found(actors, log.drop_last(), name, e);
    }
}

proof fn lemma_loadout_found(actors: Seq<Actor>, log: Seq<ActorUpdate>, name: Seq<char>, e: int)
    requires
        0 <= e < log.len(),
        log[e].value is Loadout,
        attributed_to(actors, log[e].slot as int, name),
    ensures
        first_loadout(actors, log, name) is Some,
    decreases log.len(),
{
    if e < log.len() - 1 {
        assert(log.drop_last()[e] == log[e]);
        lemma_loadout_found(actors, log.drop_last(), name, e);
    }
}

/// A player that no actor was attributed to keeps an empty timeline, no camera
/// and no loadout.
pub proof fn lemma_unclaimed_player_empty(actors: Seq<Actor>, log: Seq<ActorUpdate>, name: Seq<char>)
    requires
        forall|e: int| 0 <= e < log.len() ==> #[trigger] log[e].slot < actors.len(),
        !claimed(actors, name),
    ensures
        player_track(actors, log, name) == Seq::<(usize, boxcars::RigidBody)>::empty(),
        first_camera(actors, log, name) is None,
        first_loadout(actors, log, name) is None,
    decreases log.len(),
{
    if log.len() > 0 {
        let prev = log.drop_last();
        assert forall|e: int| 0 <= e < prev.len() implies #[trigger] prev[e].slot < actors.len() by {
            assert(prev[e] == log[e]);
        }
        lemma_unclaimed_player_empty(actors, prev, name);
        let s = log.last().slot as int;
        assert(log.last() == log[log.len() - 1]);
        assert(!attributed_to(actors, s, name));
    }
}


/// One of the three events that resolve a chain component → car → player-info:
/// the component's link to the car, the car's link to the player-info, and
/// the naming of the player-info.
pub open spec fn chain_event(
    new: Registry,
    old: Registry,
    event: int,
    component: usize,
    car: usize,
    info: usize,
    name: String,
) -> bool {
    if event == 0 {
        parent_linked(new, old, component, car)
    } else if event == 1 {
        parent_linked(new, old, car, info)
    } else {
        player_named(new, old, info, name)
    }
}

/// Delivering the two links and the naming of a fresh chain in any of the six
/// orders gives every actor of the chain the same player: the name delivered.
pub proof fn lemma_chain_order_independent(
    r0: Registry,
    r1: Registry,
    r2: Registry,
    r3: Registry,
    component: usize,
    car: usize,
    info: usize,
    name: String,
    first: int,
    second: int,
    third: int,
)
    requires
        r0.wf(),
        component < r0.actors@.len(),
        car < r0.actors@.len(),
        info < r0.actors@.len(),
        component != car && car != info && component != info,
        r0.actors@[component as int].player is None,
        r0.actors@[car as int].player is None,
        r0.actors@[info as int].player is None,
        0 <= first < 3 && 0 <= second < 3 && 0 <= third < 3,
        first != second && second != third && first != third,
        chain_event(r1, r0, first, component, car, info, name),
        chain_event(r2, r1, second, component, car, info, name),
        chain_event(r3, r2, third, component, car, info, name),
    ensures
        r3.actors@[component as int].player == Some(name),
        r3.actors@[car as int].player == Some(name),
        r3.actors@[info as int].player == Some(name),
{
    let c = component as int;
    let k = car as int;
    let f = info as int;
    assert(r1.actors@[c].id == r0.actors@[c].id && r1.actors@[k].id == r0.actors@[k].id && r1.actors@[f].id
        == r0.actors@[f].id);
    assert(r2.actors@[c].id == r1.actors@[c].id && r2.actors@[k].id == r1.actors@[k].id && r2.actors@[f].id
        == r1.actors@[f].id);
    assert(r3.actors@[c].id == r2.actors@[c].id && r3.actors@[k].id == r2.actors@[k].id && r3.actors@[f].id
        == r2.actors@[f].id);
    if third == 0 {
        assert(r3.actors@[c].parent == Some(car));
    } else if third == 1 {
        assert(r3.actors@[k].parent == Some(info));
        if first == 0 {
            assert(r1.actors@[c].parent == Some(car));
        } else {
            assert(r2.actors@[c].parent == Some(car));
        }
        assert(r3.actors@[c].parent == Some(car));
    } else {
        if first == 0 {
            assert(r1.actors@[c].parent == Some(car));
            assert(r2.actors@[k].parent == Some(info));
        } else {
            assert(r1.actors@[k].parent == Some(info));
            assert(r2.actors@[c].parent == Some(car));
        }
        assert(r3.actors@[c].parent == Some(car));
        assert(r3.actors@[k].parent == Some(info));
    }
}

} // verus!
