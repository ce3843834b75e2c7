use vstd::prelude::*;

use crate::events::{AttrValue, Stream};
use crate::header::{HeaderError, PropValue};
use crate::models::{header_error, output_of_header, Player, ReplayOutput};
use crate::registry::{Actor, ActorUpdate, Registry};
use crate::resolver::{log_in_order, run_frames, stream_run, text_is, Diagnostic, FramePass};

verus! {

pub open spec fn ball_archetype() -> Seq<char> {
    "Archetypes.Ball.Ball_Default"@
}

pub open spec fn car_archetype() -> Seq<char> {
    "Archetypes.Car.Car_Default"@
}

pub open spec fn camera_archetype() -> Seq<char> {
    "TAGame.Default__CameraSettingsActor_TA"@
}

/// Carries an actor's rigid-body state.
pub open spec fn rigid_body_key() -> Seq<char> {
    "TAGame.RBActor_TA:ReplicatedRBState"@
}

/// The actor in `slot` has been attributed to the player called `name`.
pub open spec fn attributed_to(actors: Seq<Actor>, slot: int, name: Seq<char>) -> bool {
    actors[slot].player matches Some(p) && p@ == name
}

/// The rigid-body state updates of ball actors, in log order.
pub open spec fn ball_track(actors: Seq<Actor>, log: Seq<ActorUpdate>) -> Seq<(usize, boxcars::RigidBody)>
    decreases log.len(),
{
    if log.len() == 0 {
        seq![]
    } else {
        let prev = ball_track(actors, log.drop_last());
        let e = log.last();
        match e.value {
            AttrValue::RigidBody(b) => if e.attribute_name@ == rigid_body_key()
                && actors[e.slot as int].archetype@ == ball_archetype() {
                prev.push((e.frame, b))
            } else {
                prev
            },
            _ => prev,
        }
    }
}

/// The rigid-body state updates of the cars attributed to `name`, in log order.
pub open spec fn player_track(actors: Seq<Actor>, log: Seq<ActorUpdate>, name: Seq<char>) -> Seq<(usize, boxcars::RigidBody)>
    decreases log.len(),
{
    if log.len() == 0 {
        seq![]
    } else {
        let prev = player_track(actors, log.drop_last(), name);
        let e = log.last();
        match e.value {
            AttrValue::RigidBody(b) => if e.attribute_name@ == rigid_body_key()
                && actors[e.slot as int].archetype@ == car_archetype()
                && attributed_to(actors, e.slot as int, name) {
                prev.push((e.frame, b))
            } else {
                prev
            },
            _ => prev,
        }
    }
}

/// The first camera profile logged for an actor attributed to `name`.
pub open spec fn first_camera(actors: Seq<Actor>, log: Seq<ActorUpdate>, name: Seq<char>) -> Option<boxcars::CamSettings>
    decreases log.len(),
{
    if log.len() == 0 {
        None
    } else {
        let prev = first_camera(actors, log.drop_last(), name);
        let e = log.last();
        if prev is Some {
            prev
        } else {
            match e.value {
                AttrValue::CameraProfile(c) => if attributed_to(actors, e.slot as int, name) {
                    Some(c)
                } else {
                    None
                },
                _ => None,
            }
        }
    }
}

/// The first loadout logged for an actor attributed to `name`.
pub open spec fn first_loadout(actors: Seq<Actor>, log: Seq<ActorUpdate>, name: Seq<char>) -> Option<boxcars::TeamLoadout>
    decreases log.len(),
{
    if log.len() == 0 {
        None
    } else {
        let prev = first_loadout(actors, log.drop_last(), name);
        let e = log.last();
        if prev is Some {
            prev
        } else {
            match e.value {
                AttrValue::Loadout(l) => if attributed_to(actors, e.slot as int, name) {
                    Some(l)
                } else {
                    None
                },
                _ => None,
            }
        }
    }
}

/// Two players with the same header stats.
pub open spec fn same_stats(a: Player, b: Player) -> bool {
    &&& a.name == b.name
    &&& a.tag == b.tag
    &&& a.platform == b.platform
    &&& a.score == b.score
    &&& a.goals == b.goals
    &&& a.assists == b.assists
    &&& a.saves == b.saves
    &&& a.shots == b.shots
    &&& a.mvp == b.mvp
    &&& a.full_time == b.full_time
    &&& a.joined_late == b.joined_late
    &&& a.left_early == b.left_early
}

/// `p` holds what the first `log` entries attribute to it.
pub open spec fn player_extracted(p: Player, actors: Seq<Actor>, log: Seq<ActorUpdate>) -> bool {
    &&& p.positions@ == player_track(actors, log, p.name@)
    &&& p.camera == first_camera(actors, log, p.name@)
    &&& p.loadout == first_loadout(actors, log, p.name@)
}

/// Fills the ball's and the players' timelines, cameras and loadouts from the
/// log of a finished frame pass.
pub fn extract(actors: &Vec<Actor>, log: &Vec<ActorUpdate>, out: &mut ReplayOutput)
    requires
        forall|e: int| 0 <= e < log@.len() ==> #[trigger] log@[e].slot < actors@.len(),
        old(out).ball.positions@.len() == 0,
        forall|k: int|
            0 <= k < old(out).players@.len() ==> player_extracted(
                #[trigger] old(out).players@[k],
                actors@,
                seq![],
            ),
    ensures
        final(out).ball.positions@ == ball_track(actors@, log@),
        final(out).players@.len() == old(out).players@.len(),
        forall|k: int|
            0 <= k < old(out).players@.len() ==> {
                &&& same_stats(#[trigger] final(out).players@[k], old(out).players@[k])
                &&& player_extracted(final(out).players@[k], actors@, log@)
            },
        final(out).team0 == old(out).team0,
        final(out).team1 == old(out).team1,
        final(out).game == old(out).game,
{
    let ghost start = *out;
    let mut i: usize = 0;
    assert(log@.take(0) =~= seq![]);
    while i < log.len()
        invariant
            forall|e: int| 0 <= e < log@.len() ==> #[trigger] log@[e].slot < actors@.len(),
            i <= log@.len(),
            out.ball.positions@ == ball_track(actors@, log@.take(i as int)),
            out.players@.len() == start.players@.len(),
            forall|k: int|
                0 <= k < start.players@.len() ==> {
                    &&& same_stats(#[trigger] out.players@[k], start.players@[k])
                    &&& player_extracted(out.players@[k], actors@, log@.take(i as int))
                },
            out.team0 == start.team0,
            out.team1 == start.team1,
            out.game == start.game,
        decreases log@.len() - i,
    {
        let ghost seen = log@.take(i as int);
        let ghost next = log@.take(i + 1);
        assert(next.drop_last() =~= seen);
        assert(next.last() == log@[i as int]);
        let e = &log[i];
        let actor = &actors[e.slot];
        let is_ball = text_is(&actor.archetype, "Archetypes.Ball.Ball_Default");
        let is_car = text_is(&actor.archetype, "Archetypes.Car.Car_Default");
        let is_rb_state = text_is(&e.attribute_name, "TAGame.RBActor_TA:ReplicatedRBState");
        if let AttrValue::RigidBody(b) = &e.value {
            if is_ball && is_rb_state {
                out.add_ball_position(e.frame, *b);
            }
        }
        let mut k: usize = 0;
        while k < out.players.len()
            invariant
                forall|e: int| 0 <= e < log@.len() ==> #[trigger] log@[e].slot < actors@.len(),
                i < log@.len(),
                k <= out.players@.len(),
                seen == log@.take(i as int),
                next == log@.take(i + 1),
                next.drop_last() == seen,
                next.last() == log@[i as int],
                *e == log@[i as int],
                *actor == actors@[e.slot as int],
                is_car == (actor.archetype@ == car_archetype()),
                is_rb_state == (e.attribute_name@ == rigid_body_key()),
                out.ball.positions@ == ball_track(actors@, next),
                out.players@.len() == start.players@.len(),
                forall|j: int|
                    0 <= j < start.players@.len() ==> {
                        &&& same_stats(#[trigger] out.players@[j], start.players@[j])
                        &&& j < k ==> player_extracted(out.players@[j], actors@, next)
                        &&& j >= k ==> player_extracted(out.players@[j], actors@, seen)
                    },
                out.team0 == start.team0,
                out.team1 == start.team1,
                out.game == start.game,
            decreases out.players@.len() - k,
        {
            let ghost before = out.players@[k as int];
            let owned = match &actor.player {
                Some(p) => out.players[k].name == *p,
                None => false,
            };
            if owned {
                match &e.value {
                    AttrValue::RigidBody(b) => {
                        if is_car && is_rb_state {
                            out.add_player_position(k, e.frame, *b);
                        }
                    },
                    AttrValue::CameraProfile(c) => {
                        if out.players[k].camera.is_none() {
                            out.players[k].camera = Some(*c);
                        }
                    },
                    AttrValue::Loadout(l) => {
                        if out.players[k].loadout.is_none() {
                            out.players[k].loadout = Some(*l);
                        }
                    },
                    _ => {},
                }
            }
            proof {
                assert(owned == attributed_to(actors@, e.slot as int, before.name@));
                assert(player_extracted(out.players@[k as int], actors@, next));
            }
            k = k + 1;
        }
        i = i + 1;
    }
    assert(log@.take(log@.len() as int) =~= log@);
}


/// The ids of the cars and camera-settings actors that never got a player,
/// in slot order.
pub open spec fn unattributed_ids(actors: Seq<Actor>) -> Seq<i32>
    decreases actors.len(),
{
    if actors.len() == 0 {
        seq![]
    } else {
        let prev = unattributed_ids(actors.drop_last());
        let a = actors.last();
        if (a.archetype@ == car_archetype() || a.archetype@ == camera_archetype()) && a.player is None {
            prev.push(a.id)
        } else {
            prev
        }
    }
}

/// Lists the cars and camera-settings actors that were never attributed.
pub fn unattributed_actors(actors: &Vec<Actor>) -> (r: Vec<i32>)
    ensures
        r@ == unattributed_ids(actors@),
{
    let mut r: Vec<i32> = Vec::new();
    let mut i: usize = 0;
    assert(actors@.take(0) =~= seq![]);
    while i < actors.len()
        invariant
            i <= actors@.len(),
            r@ == unattributed_ids(actors@.take(i as int)),
        decreases actors@.len() - i,
    {
        assert(actors@.take(i + 1).drop_last() =~= actors@.take(i as int));
        let a = &actors[i];
        if (text_is(&a.archetype, "Archetypes.Car.Car_Default") || text_is(
            &a.archetype,
            "TAGame.Default__CameraSettingsActor_TA",
        )) && a.player.is_none() {
            r.push(a.id);
        }
        i = i + 1;
    }
    assert(actors@.take(actors@.len() as int) =~= actors@);
    r
}

/// Some actor has been attributed to `name`.
pub open spec fn claimed(actors: Seq<Actor>, name: Seq<char>) -> bool {
    exists|s: int| 0 <= s < actors.len() && attributed_to(actors, s, name)
}

/// Whether some actor has been attributed to `name`.
fn has_actor(actors: &Vec<Actor>, name: &String) -> (r: bool)
    ensures
        r == claimed(actors@, name@),
{
    let mut i: usize = 0;
    while i < actors.len()
        invariant
            i <= actors@.len(),
            forall|s: int| 0 <= s < i ==> !attributed_to(actors@, s, name@),
        decreases actors@.len() - i,
    {
        let found = match &actors[i].player {
            Some(p) => *p == *name,
            None => false,
        };
        if found {
            assert(attributed_to(actors@, i as int, name@));
            return true;
        }
        i = i + 1;
    }
    false
}

/// Lists, in order, the positions of the players that no actor was attributed to.
pub fn players_without_actors(players: &Vec<Player>, actors: &Vec<Actor>) -> (r: Vec<usize>)
    ensures
        forall|j: int| 0 <= j < r@.len() ==> #[trigger] r@[j] < players@.len(),
        forall|j: int, l: int| 0 <= j < l < r@.len() ==> #[trigger] r@[j] < #[trigger] r@[l],
        forall|k: int|
            0 <= k < players@.len() ==> (r@.contains(k as usize) <==> !claimed(
                actors@,
                #[trigger] players@[k].name@,
            )),
{
    let mut r: Vec<usize> = Vec::new();
    let mut k: usize = 0;
    while k < players.len()
        invariant
            k <= players@.len(),
            forall|j: int| 0 <= j < r@.len() ==> #[trigger] r@[j] < k,
            forall|j: int, l: int| 0 <= j < l < r@.len() ==> #[trigger] r@[j] < #[trigger] r@[l],
            forall|m: int|
                0 <= m < k ==> (r@.contains(m as usize) <==> !claimed(actors@, #[trigger] players@[m].name@)),
        decreases players@.len() - k,
    {
        let ghost prev = r@;
        if !has_actor(actors, &players[k].name) {
            r.push(k);
            assert(r@[prev.len() as int] == k);
        }
        assert forall|m: int|
            0 <= m < k + 1 implies (r@.contains(m as usize) <==> !claimed(actors@, #[trigger] players@[m].name@)) by {
            if r@.contains(m as usize) && m < k {
                let j = choose|j: int| 0 <= j < r@.len() && r@[j] == m as usize;
                if j == prev.len() {
                } else {
                    assert(prev[j] == m as usize);
                }
            }
            if m < k && prev.contains(m as usize) {
                let j = choose|j: int| 0 <= j < prev.len() && prev[j] == m as usize;
                assert(r@[j] == m as usize);
            }
        }
        k = k + 1;
    }
    r
}

/// Everything one reconstruction run produces.
pub struct Reconstruction {
    pub output: ReplayOutput,
    /// The finished actor registry that the output was extracted from.
    pub registry: Registry,
    /// Stream anomalies, each the event that was dropped.
    pub diagnostics: Vec<Diagnostic>,
    /// Ids of cars and camera-settings actors that were never attributed.
    pub unattributed: Vec<i32>,
    /// Positions in `output.players` of the players that no actor was attributed to.
    pub unknown_players: Vec<usize>,
}

/// Reconstructs the teams, players, ball and game of a replay from its header
/// properties and its decoded network stream. Fails only on the header.
pub fn reconstruct(props: &Vec<(String, PropValue)>, game_type: String, stream: &Stream) -> (r: Result<
    Reconstruction,
    HeaderError,
>)
    ensures
        r is Ok <==> header_error(props@) is None,
        r matches Err(e) ==> header_error(props@) == Some(e),
        r matches Ok(rec) ==> {
            let out = rec.output;
            let actors = rec.registry.actors@;
            let log = rec.registry.log@;
            &&& rec.registry.wf()
            &&& stream_run(
                (FramePass {
                    registry: rec.registry,
                    team0_name: out.team0.name,
                    team1_name: out.team1.name,
                    diagnostics: rec.diagnostics,
                }),
                *stream,
            )
            &&& forall|x: i32| !#[trigger] rec.registry.is_active(x)
            &&& log_in_order(log, stream.frames@.len())
            &&& out.team0.score matches Some(s0) && crate::header::int_field(props@, "Team0Score"@) == Ok::<i32, HeaderError>(s0)
            &&& out.team1.score matches Some(s1) && crate::header::int_field(props@, "Team1Score"@) == Ok::<i32, HeaderError>(s1)
            &&& out.ball.positions@ == ball_track(actors, log)
            &&& exists|skeleton: ReplayOutput| {
                &&& output_of_header(skeleton, props@, game_type@)
                &&& out.game == skeleton.game
                &&& out.players@.len() == skeleton.players@.len()
                &&& forall|k: int| 0 <= k < out.players@.len() ==> same_stats(#[trigger] out.players@[k], skeleton.players@[k])
            }
            &&& forall|k: int| 0 <= k < out.players@.len() ==> player_extracted(#[trigger] out.players@[k], actors, log)
            &&& rec.unattributed@ == unattributed_ids(actors)
            &&& forall|k: int|
                0 <= k < out.players@.len() ==> (rec.unknown_players@.contains(k as usize) <==> !claimed(
                    actors,
                    #[trigger] out.players@[k].name@,
                ))
        },
{
    let mut output = match ReplayOutput::from(props, game_type) {
        Ok(o) => o,
        Err(e) => return Err(e),
    };
    let ghost skeleton = output;
    let pass = run_frames(stream);
    let ghost whole = pass;
    let registry = pass.registry;
    output.team0.name = pass.team0_name;
    output.team1.name = pass.team1_name;
    assert forall|k: int| 0 <= k < output.players@.len() implies player_extracted(
        #[trigger] output.players@[k],
        registry.actors@,
        seq![],
    ) by {
        assert(skeleton.players@[k] == output.players@[k]);
        let rows = crate::header::array_field(props@, "PlayerStats"@)->Ok_0;
        assert(crate::models::player_of_stats(skeleton.players@[k], rows@[k]@));
        assert(output.players@[k].positions@ =~= seq![]);
    }
    extract(&registry.actors, &registry.log, &mut output);
    let unattributed = unattributed_actors(&registry.actors);
    let unknown_players = players_without_actors(&output.players, &registry.actors);
    assert(output.players@.len() == skeleton.players@.len());
    let rec = Reconstruction { output, registry, diagnostics: pass.diagnostics, unattributed, unknown_players };
    assert((FramePass {
        registry: rec.registry,
        team0_name: rec.output.team0.name,
        team1_name: rec.output.team1.name,
        diagnostics: rec.diagnostics,
    }) == whole);
    Ok(rec)
}

} // verus!
