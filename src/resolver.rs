use vstd::prelude::*;

use crate::events::{copy_value, AttrValue, Frame, NewActor, Stream, UpdatedActor};
use crate::registry::{Actor, ActorUpdate, Registry};
use crate::timeline::ball_archetype;

verus! {

/// Links a car component to its car.
pub open spec fn vehicle_key() -> Seq<char> {
    "TAGame.CarComponent_TA:Vehicle"@
}

/// Links a car to its player-info actor.
pub open spec fn pawn_owner_key() -> Seq<char> {
    "Engine.Pawn:PlayerReplicationInfo"@
}

/// Links a camera-settings actor to its player-info actor.
pub open spec fn camera_owner_key() -> Seq<char> {
    "TAGame.CameraSettingsActor_TA:PRI"@
}

/// Names the player that a player-info actor stands for.
pub open spec fn player_name_key() -> Seq<char> {
    "Engine.PlayerReplicationInfo:PlayerName"@
}

/// Gives a team its custom name.
pub open spec fn team_name_key() -> Seq<char> {
    "TAGame.Team_TA:CustomTeamName"@
}

pub open spec fn team0_archetype() -> Seq<char> {
    "Archetypes.Teams.Team0"@
}

pub open spec fn team1_archetype() -> Seq<char> {
    "Archetypes.Teams.Team1"@
}

pub open spec fn is_link_key(k: Seq<char>) -> bool {
    k == vehicle_key() || k == pawn_owner_key() || k == camera_owner_key()
}

/// An anomaly of the stream, met on the way and recovered from.
#[derive(PartialEq, Eq, Structural, Clone, Copy, Debug)]
pub enum Diagnostic {
    /// An event named an actor that was not active (or a table entry that does
    /// not exist); it was dropped.
    MalformedEvent { frame: usize, id: i32 },
    /// A second ball appeared while one was active; only single-ball games
    /// are reconstructed, and the balls' transforms share one timeline.
    MultipleBalls { frame: usize, id: i32 },
}

/// The entry of a session table at a decoder-supplied index.
pub fn lookup_object(table: &Vec<String>, index: i32) -> (r: Option<&String>)
    ensures
        r is Some <==> in_table(index, table@.len()),
        r matches Some(s) ==> *s == table@[index as int],
{
    if index < 0 || index as usize >= table.len() {
        None
    } else {
        Some(&table[index as usize])
    }
}

/// Whether `s` reads `lit`.
pub fn text_is(s: &String, lit: &str) -> (r: bool)
    ensures
        r == (s@ == lit@),
{
    *s == String::from_str(lit)
}

/// The state of one run over the frames: the actors, the team names seen so
/// far, and what was reported.
pub struct FramePass {
    pub registry: Registry,
    pub team0_name: Option<String>,
    pub team1_name: Option<String>,
    pub diagnostics: Vec<Diagnostic>,
}

/// `new` extends `old`: every actor keeps its identity, a player once given
/// stays, and a retirement once stamped stays.
pub open spec fn keeps_actors(new: Seq<Actor>, old: Seq<Actor>) -> bool {
    &&& new.len() >= old.len()
    &&& forall|i: int|
        0 <= i < old.len() ==> {
            &&& (#[trigger] new[i]).id == old[i].id
            &&& new[i].name == old[i].name
            &&& new[i].archetype == old[i].archetype
            &&& new[i].created_at == old[i].created_at
            &&& old[i].deleted_at is Some ==> new[i].deleted_at == old[i].deleted_at
            &&& old[i].player is Some ==> new[i].player == old[i].player
        }
}

/// `new` is `old` with entries appended, all made in `frame`.
pub open spec fn log_grows(new: Seq<ActorUpdate>, old: Seq<ActorUpdate>, frame: usize) -> bool {
    &&& new.len() >= old.len()
    &&& new.subrange(0, old.len() as int) == old
    &&& forall|e: int| old.len() <= e < new.len() ==> (#[trigger] new[e]).frame == frame
}

/// What every event keeps.
pub open spec fn event_keeps(new: &FramePass, old: &FramePass, frame: usize) -> bool {
    &&& new.wf()
    &&& keeps_actors(new.registry.actors@, old.registry.actors@)
    &&& log_grows(new.registry.log@, old.registry.log@, frame)
    &&& new.diagnostics@.len() >= old.diagnostics@.len()
    &&& new.diagnostics@.subrange(0, old.diagnostics@.len() as int) == old.diagnostics@
}

/// The effect of one `create_event` call: from `old` to `new`.
pub open spec fn create_step(new: FramePass, old: FramePass, frame: usize, event: NewActor, names: Seq<String>, objects: Seq<String>) -> bool {
    &&& event_keeps(&new, &old, frame)
    &&& ({
        let ok = event.name_index matches Some(ni) && in_table(ni, names.len()) && in_table(
            event.object_index,
            objects.len(),
        ) && !old.registry.is_active(event.id);
        &&& !ok ==> new.dropped(&old, frame, event.id)
        &&& ok ==> {
            &&& new.team0_name == old.team0_name
            &&& new.team1_name == old.team1_name
            &&& new.diagnostics@ == if objects[event.object_index as int]@ == ball_archetype()
                && old.ball_active() {
                old.diagnostics@.push(Diagnostic::MultipleBalls { frame, id: event.id })
            } else {
                old.diagnostics@
            }
            &&& new.registry.actors@.drop_last() == old.registry.actors@
            &&& Registry::fresh_actor(
                new.registry.actors@.last(),
                event.id,
                names[event.name_index->Some_0 as int]@,
                objects[event.object_index as int]@,
                frame,
            )
            &&& new.registry.is_active(event.id)
            &&& new.registry.active@ == old.registry.active@.push(old.registry.actors@.len() as usize)
            &&& new.registry.log@ == old.registry.log@
        }
    })
}

/// The effect of one `delete_event` call: from `old` to `new`.
pub open spec fn delete_step(new: FramePass, old: FramePass, frame: usize, id: i32) -> bool {
    &&& event_keeps(&new, &old, frame)
    &&& !old.registry.is_active(id) ==> new.dropped(&old, frame, id)
    &&& old.registry.is_active(id) ==> {
        &&& new.only_registry_changed(&old)
        &&& !new.registry.is_active(id)
        &&& new.registry.actors@[old.registry.slot_of(id)].deleted_at == Some(frame)
        &&& new.registry.log@ == old.registry.log@
        &&& forall|i: int|
            0 <= i < old.registry.actors@.len() && i != old.registry.slot_of(id)
                ==> #[trigger] new.registry.actors@[i] == old.registry.actors@[i]
        &&& forall|x: i32| #[trigger]
            new.registry.is_active(x) <==> old.registry.is_active(x) && x != id
        &&& forall|x: i32|
            #[trigger] new.registry.is_active(x) ==> new.registry.slot_of(x) == old.registry.slot_of(x)
    }
}

/// The effect of one `update_event` call: from `old` to `new`.
pub open spec fn update_step(new: FramePass, old: FramePass, frame: usize, event: UpdatedActor, objects: Seq<String>) -> bool {
    &&& event_keeps(&new, &old, frame)
    &&& !(in_table(event.object_index, objects.len()) && old.registry.is_active(event.id))
        ==> new.dropped(&old, frame, event.id)
    &&& in_table(event.object_index, objects.len()) && old.registry.is_active(event.id) ==> ({
        let s = old.registry.slot_of(event.id);
        let key = objects[event.object_index as int]@;
        let old_actors = old.registry.actors@;
        let actors = new.registry.actors@;
        &&& new.registry.log@.drop_last() == old.registry.log@
        &&& new.registry.log@.len() == old.registry.log@.len() + 1
        &&& new.registry.log@.last().slot == s
        &&& new.registry.log@.last().frame == frame
        &&& new.registry.log@.last().attribute_name@ == key
        &&& new.registry.log@.last().value == event.value
        &&& new.registry.active@ == old.registry.active@
        &&& actors.len() == old_actors.len()
        &&& forall|i: int| 0 <= i < old_actors.len() ==> {
            &&& (#[trigger] actors[i]).id == old_actors[i].id
            &&& actors[i].name == old_actors[i].name
            &&& actors[i].archetype == old_actors[i].archetype
            &&& actors[i].deleted_at == old_actors[i].deleted_at
            &&& old_actors[i].player is Some ==> actors[i].player == old_actors[i].player
        }
    })
    &&& in_table(event.object_index, objects.len()) && old.registry.is_active(event.id) ==> ({
        let s = old.registry.slot_of(event.id);
        let key = objects[event.object_index as int]@;
        let old_actors = old.registry.actors@;
        let actors = new.registry.actors@;
        &&& match event.value {
            AttrValue::ActorRef { actor, active } => {
                if is_link_key(key) && active {
                    if old.registry.is_active(actor) {
                        let p = old.registry.slot_of(actor);
                        &&& new.only_registry_changed(&old)
                        &&& actors[s as int].parent == Some(p as usize)
                        &&& old_actors[s as int].player is None ==> actors[s as int].player
                            == old_actors[p].player
                        &&& forall|i: int|
                            0 <= i < old_actors.len() ==> {
                                &&& (i != s ==> (#[trigger] actors[i]).parent == old_actors[i].parent)
                                &&& actors[i].player != old_actors[i].player ==> actors[i].player
                                    == old_actors[p].player
                            }
                    } else {
                        &&& actors == old_actors
                        &&& new.team0_name == old.team0_name
                        &&& new.team1_name == old.team1_name
                        &&& new.diagnostics@ == old.diagnostics@.push(
                            Diagnostic::MalformedEvent { frame, id: actor },
                        )
                    }
                } else {
                    actors == old_actors && new.only_registry_changed(&old)
                }
            },
            AttrValue::Text(text) => {
                &&& new.diagnostics@ == old.diagnostics@
                &&& if key == player_name_key() {
                    &&& actors[s as int].player is Some
                    &&& old_actors[s as int].player is None ==> actors[s as int].player
                        == Some(text)
                    &&& old_actors[s as int].player is Some ==> actors == old_actors
                    &&& forall|i: int|
                        0 <= i < old_actors.len() ==> {
                            &&& (#[trigger] actors[i]).parent == old_actors[i].parent
                            &&& actors[i].player != old_actors[i].player ==> actors[i].player
                                == Some(text)
                        }
                    &&& new.team0_name == old.team0_name
                    &&& new.team1_name == old.team1_name
                } else {
                    &&& actors == old_actors
                    &&& new.team0_name == if key == team_name_key()
                        && old_actors[s as int].archetype@ == team0_archetype() {
                        Some(text)
                    } else {
                        old.team0_name
                    }
                    &&& new.team1_name == if key == team_name_key()
                        && old_actors[s as int].archetype@ == team1_archetype() {
                        Some(text)
                    } else {
                        old.team1_name
                    }
                }
            },
            _ => actors == old_actors && new.only_registry_changed(&old),
        }
    })
}

/// `trace` runs through the creations `events` of frame `frame`, one step each.
pub open spec fn creations_trace(
    trace: Seq<FramePass>,
    frame: usize,
    events: Seq<NewActor>,
    names: Seq<String>,
    objects: Seq<String>,
) -> bool {
    &&& trace.len() == events.len() + 1
    &&& forall|i: int|
        0 <= i < events.len() ==> #[trigger] create_step(trace[i + 1], trace[i], frame, events[i], names, objects)
}

/// `new` is `old` after the creations `events` of frame `frame`, in order.
pub open spec fn creations_applied(
    new: FramePass,
    old: FramePass,
    frame: usize,
    events: Seq<NewActor>,
    names: Seq<String>,
    objects: Seq<String>,
) -> bool {
    exists|trace: Seq<FramePass>|
        #[trigger] creations_trace(trace, frame, events, names, objects) && trace[0] == old && trace.last() == new
}

/// `trace` runs through the updates `events` of frame `frame`, one step each.
pub open spec fn updates_trace(trace: Seq<FramePass>, frame: usize, events: Seq<UpdatedActor>, objects: Seq<String>) -> bool {
    &&& trace.len() == events.len() + 1
    &&& forall|i: int|
        0 <= i < events.len() ==> #[trigger] update_step(trace[i + 1], trace[i], frame, events[i], objects)
}

/// `new` is `old` after the updates `events` of frame `frame`, in order.
pub open spec fn updates_applied(
    new: FramePass,
    old: FramePass,
    frame: usize,
    events: Seq<UpdatedActor>,
    objects: Seq<String>,
) -> bool {
    exists|trace: Seq<FramePass>|
        #[trigger] updates_trace(trace, frame, events, objects) && trace[0] == old && trace.last() == new
}

/// `trace` runs through the deletions `ids` of frame `frame`, one step each.
pub open spec fn deletions_trace(trace: Seq<FramePass>, frame: usize, ids: Seq<i32>) -> bool {
    &&& trace.len() == ids.len() + 1
    &&& forall|i: int| 0 <= i < ids.len() ==> #[trigger] delete_step(trace[i + 1], trace[i], frame, ids[i])
}

/// `new` is `old` after the deletions `ids` of frame `frame`, in order.
pub open spec fn deletions_applied(new: FramePass, old: FramePass, frame: usize, ids: Seq<i32>) -> bool {
    exists|trace: Seq<FramePass>|
        #[trigger] deletions_trace(trace, frame, ids) && trace[0] == old && trace.last() == new
}

/// `new` is `old` after frame number `index`: its creations, then its
/// updates, then its deletions.
pub open spec fn frame_applied(
    new: FramePass,
    old: FramePass,
    index: usize,
    frame: Frame,
    names: Seq<String>,
    objects: Seq<String>,
) -> bool {
    exists|created: FramePass, updated: FramePass|
        #[trigger] creations_applied(created, old, index, frame.new_actors@, names, objects)
            && #[trigger] updates_applied(updated, created, index, frame.updated_actors@, objects)
            && deletions_applied(new, updated, index, frame.deleted_actors@)
}

/// The state of a pass before any frame.
pub open spec fn is_fresh(p: FramePass) -> bool {
    &&& p.registry.actors@.len() == 0
    &&& p.registry.active@.len() == 0
    &&& p.registry.log@.len() == 0
    &&& p.team0_name is None
    &&& p.team1_name is None
    &&& p.diagnostics@.len() == 0
}

/// `trace` runs through `frames` from a fresh pass, one frame each, numbered from 0.
pub open spec fn frames_trace(trace: Seq<FramePass>, frames: Seq<Frame>, names: Seq<String>, objects: Seq<String>) -> bool {
    &&& trace.len() == frames.len() + 1
    &&& is_fresh(trace[0])
    &&& forall|i: int|
        0 <= i < frames.len() ==> #[trigger] frame_applied(trace[i + 1], trace[i], i as usize, frames[i], names, objects)
}

/// `new` is a fresh pass after `frames`, applied in order and numbered from 0.
pub open spec fn frames_applied(new: FramePass, frames: Seq<Frame>, names: Seq<String>, objects: Seq<String>) -> bool {
    exists|trace: Seq<FramePass>| #[trigger] frames_trace(trace, frames, names, objects) && trace.last() == new
}

/// `r` is the outcome of a whole pass over `stream`: every frame applied in
/// order, then every actor still active retired.
pub open spec fn stream_run(r: FramePass, stream: Stream) -> bool {
    exists|pre: FramePass|
        #[trigger] frames_applied(pre, stream.frames@, stream.names@, stream.objects@)
            && r.registry.actors@ == pre.registry.actors@ && r.registry.log@ == pre.registry.log@
            && r.registry.active@.len() == 0 && r.team0_name == pre.team0_name && r.team1_name
            == pre.team1_name && r.diagnostics@ == pre.diagnostics@
}

/// `i` indexes a table of length `len`.
pub open spec fn in_table(i: i32, len: nat) -> bool {
    0 <= i && i < len
}

impl FramePass {
    pub open spec fn wf(&self) -> bool {
        self.registry.wf()
    }

    /// Facts that an event leaves alone.
    pub open spec fn only_registry_changed(&self, prev: &FramePass) -> bool {
        &&& self.team0_name == prev.team0_name
        &&& self.team1_name == prev.team1_name
        &&& self.diagnostics@ == prev.diagnostics@
    }

    /// The event was dropped and reported.
    pub open spec fn dropped(&self, prev: &FramePass, frame: usize, id: i32) -> bool {
        &&& self.registry == prev.registry
        &&& self.team0_name == prev.team0_name
        &&& self.team1_name == prev.team1_name
        &&& self.diagnostics@ == prev.diagnostics@.push(Diagnostic::MalformedEvent { frame, id })
    }

    /// Some active actor is a ball.
    pub open spec fn ball_active(&self) -> bool {
        exists|k: int|
            0 <= k < self.registry.active@.len() && (#[trigger] self.registry.actors@[self.registry.active@[k] as int]).archetype@
                == ball_archetype()
    }

    /// Whether some active actor is a ball.
    fn any_ball_active(&self) -> (r: bool)
        requires
            self.wf(),
        ensures
            r == self.ball_active(),
    {
        let mut k: usize = 0;
        while k < self.registry.active.len()
            invariant
                self.wf(),
                k <= self.registry.active@.len(),
                forall|j: int|
                    0 <= j < k ==> (#[trigger] self.registry.actors@[self.registry.active@[j] as int]).archetype@
                        != ball_archetype(),
            decreases self.registry.active@.len() - k,
        {
            let s = self.registry.active[k];
            if text_is(&self.registry.actors[s].archetype, "Archetypes.Ball.Ball_Default") {
                return true;
            }
            k = k + 1;
        }
        false
    }

    pub fn new() -> (r: FramePass)
        ensures
            r.wf(),
            is_fresh(r),
            r.registry.actors@.len() == 0,
            r.registry.log@.len() == 0,
            r.team0_name is None,
            r.team1_name is None,
            r.diagnostics@.len() == 0,
    {
        FramePass { registry: Registry::new(), team0_name: None, team1_name: None, diagnostics: Vec::new() }
    }

    fn report(&mut self, frame: usize, id: i32)
        requires
            old(self).wf(),
        ensures
            final(self).dropped(old(self), frame, id),
            event_keeps(final(self), old(self), frame),
    {
        self.diagnostics.push(Diagnostic::MalformedEvent { frame, id });
        proof {
            assert(self.diagnostics@.drop_last() =~= old(self).diagnostics@);
            self.keeps_after(old(self), frame);
        }
    }

    /// The prefix facts of `event_keeps`, where only the registry's actors may
    /// have changed in place.
    proof fn keeps_after(&self, prev: &FramePass, frame: usize)
        requires
            self.wf(),
            keeps_actors(self.registry.actors@, prev.registry.actors@),
            self.registry.log@ == prev.registry.log@ || (self.registry.log@.drop_last()
                == prev.registry.log@ && self.registry.log@.len() == prev.registry.log@.len() + 1
                && self.registry.log@.last().frame == frame),
            self.diagnostics@ == prev.diagnostics@ || (self.diagnostics@.drop_last() == prev.diagnostics@
                && self.diagnostics@.len() == prev.diagnostics@.len() + 1),
        ensures
            event_keeps(self, prev, frame),
    {
        assert(self.registry.log@.subrange(0, prev.registry.log@.len() as int) =~= prev.registry.log@);
        assert(self.diagnostics@.subrange(0, prev.diagnostics@.len() as int) =~= prev.diagnostics@);
    }

    /// Registers an actor that appeared in `frame`. An id already active, or a
    /// table index out of range, drops the event with a report.
    pub fn create_event(&mut self, frame: usize, event: &NewActor, names: &Vec<String>, objects: &Vec<String>)
        requires
            old(self).wf(),
        ensures
            create_step(*final(self), *old(self), frame, *event, names@, objects@),
    {
        let name = match event.name_index {
            Some(ni) => match lookup_object(names, ni) {
                Some(n) => n.clone(),
                None => {
                    self.report(frame, event.id);
                    return ;
                },
            },
            None => {
                self.report(frame, event.id);
                return ;
            },
        };
        let archetype = match lookup_object(objects, event.object_index) {
            Some(a) => a.clone(),
            None => {
                self.report(frame, event.id);
                return ;
            },
        };
        let second_ball = text_is(&archetype, "Archetypes.Ball.Ball_Default") && self.any_ball_active();
        match self.registry.create(event.id, name, archetype, frame) {
            Ok(()) => {
                if second_ball {
                    self.diagnostics.push(Diagnostic::MultipleBalls { frame, id: event.id });
                    assert(self.diagnostics@.drop_last() =~= old(self).diagnostics@);
                }
                proof {
                    assert forall|i: int| 0 <= i < old(self).registry.actors@.len() implies
                        #[trigger] self.registry.actors@[i] == old(self).registry.actors@[i] by {
                        assert(self.registry.actors@.drop_last()[i] == self.registry.actors@[i]);
                    }
                    self.keeps_after(old(self), frame);
                }
            },
            Err(_) => self.report(frame, event.id),
        }
    }

    /// Retires an actor in `frame`; an id that is not active drops the event
    /// with a report.
    pub fn delete_event(&mut self, frame: usize, id: i32)
        requires
            old(self).wf(),
        ensures
            delete_step(*final(self), *old(self), frame, id),
    {
        match self.registry.delete(id, frame) {
            Ok(_) => {
                proof {
                    let c = choose|c: int| old(self).registry.active_pos(id, c);
                    assert(old(self).registry.actors@[old(self).registry.active@[c] as int].deleted_at is None);
                    self.keeps_after(old(self), frame);
                }
            },
            Err(_) => self.report(frame, id),
        }
    }
}


impl FramePass {
    /// Logs an attribute update made in `frame` and acts on the keys that carry
    /// ownership, identity or team names. An update of an inactive actor, an
    /// unknown key index, or a link to an inactive actor is dropped with a report.
    pub fn update_event(&mut self, frame: usize, event: &UpdatedActor, objects: &Vec<String>)
        requires
            old(self).wf(),
        ensures
            update_step(*final(self), *old(self), frame, *event, objects@),
    {
        let key = match lookup_object(objects, event.object_index) {
            Some(k) => k,
            None => {
                self.report(frame, event.id);
                return ;
            },
        };
        let slot = match self.registry.apply_update(event.id, key.clone(), copy_value(&event.value), frame) {
            Ok(s) => s,
            Err(_) => {
                self.report(frame, event.id);
                return ;
            },
        };
        proof {
            assert forall|x: i32| #[trigger] self.registry.is_active(x) == old(self).registry.is_active(x)
                && (self.registry.is_active(x) ==> self.registry.slot_of(x) == old(self).registry.slot_of(x)) by {
                if self.registry.is_active(x) {
                    let c = choose|c: int| self.registry.active_pos(x, c);
                    assert(old(self).registry.active_pos(x, c));
                    let d = choose|d: int| old(self).registry.active_pos(x, d);
                    assert(c == d);
                }
                if old(self).registry.is_active(x) {
                    let c = choose|c: int| old(self).registry.active_pos(x, c);
                    assert(self.registry.active_pos(x, c));
                }
                assert forall|c: int| self.registry.active_pos(x, c) == old(self).registry.active_pos(x, c) by {}
            }
            reveal_strlit("Archetypes.Teams.Team0");
            reveal_strlit("Archetypes.Teams.Team1");
            assert(team0_archetype()[21] != team1_archetype()[21]);
            assert(team0_archetype() != team1_archetype());
        }
        match &event.value {
            AttrValue::ActorRef { actor, active } => {
                if *active && (text_is(key, "TAGame.CarComponent_TA:Vehicle") || text_is(
                    key,
                    "Engine.Pawn:PlayerReplicationInfo",
                ) || text_is(key, "TAGame.CameraSettingsActor_TA:PRI")) {
                    match self.registry.find_active(*actor) {
                        Some(p) => self.registry.set_parent(slot, p),
                        None => {
                            self.diagnostics.push(Diagnostic::MalformedEvent { frame, id: *actor });
                            assert(self.diagnostics@.drop_last() =~= old(self).diagnostics@);
                        },
                    }
                }
            },
            AttrValue::Text(text) => {
                if text_is(key, "Engine.PlayerReplicationInfo:PlayerName") {
                    self.registry.set_player(slot, text);
                } else if text_is(key, "TAGame.Team_TA:CustomTeamName") {
                    if text_is(&self.registry.actors[slot].archetype, "Archetypes.Teams.Team0") {
                        self.team0_name = Some(text.clone());
                    } else if text_is(&self.registry.actors[slot].archetype, "Archetypes.Teams.Team1") {
                        self.team1_name = Some(text.clone());
                    }
                }
            },
            _ => {},
        }
        proof {
            self.keeps_after(old(self), frame);
        }
    }
}


/// Every event keeps the state it starts from.
proof fn lemma_keeps_refl(a: &FramePass, frame: usize)
    requires
        a.wf(),
    ensures
        event_keeps(a, a, frame),
{
    assert(a.registry.log@.subrange(0, a.registry.log@.len() as int) =~= a.registry.log@);
    assert(a.diagnostics@.subrange(0, a.diagnostics@.len() as int) =~= a.diagnostics@);
}

/// Two runs of events in one frame keep what each keeps.
proof fn lemma_keeps_trans(a: &FramePass, b: &FramePass, c: &FramePass, frame: usize)
    requires
        event_keeps(b, a, frame),
        event_keeps(c, b, frame),
    ensures
        event_keeps(c, a, frame),
{
    let la = a.registry.log@;
    let lb = b.registry.log@;
    let lc = c.registry.log@;
    assert(lc.subrange(0, la.len() as int) =~= lb.subrange(0, la.len() as int));
    assert forall|e: int| la.len() <= e < lc.len() implies (#[trigger] lc[e]).frame == frame by {
        if e < lb.len() {
            assert(lc[e] == lc.subrange(0, lb.len() as int)[e]);
        }
    }
    let da = a.diagnostics@;
    let db = b.diagnostics@;
    let dc = c.diagnostics@;
    assert(dc.subrange(0, da.len() as int) =~= db.subrange(0, da.len() as int));
}

/// The log holds entries in frame order, all made before frame `bound`.
pub open spec fn log_in_order(log: Seq<ActorUpdate>, bound: nat) -> bool {
    &&& forall|e: int| 0 <= e < log.len() ==> (#[trigger] log[e]).frame < bound
    &&& forall|e: int, f: int| 0 <= e <= f < log.len() ==> (#[trigger] log[e]).frame <= (#[trigger] log[f]).frame
}

impl FramePass {
    /// Applies one frame: its creations, then its updates, then its deletions.
    pub fn apply_frame(&mut self, index: usize, frame: &Frame, names: &Vec<String>, objects: &Vec<String>)
        requires
            old(self).wf(),
        ensures
            event_keeps(final(self), old(self), index),
            frame_applied(*final(self), *old(self), index, *frame, names@, objects@),
    {
        let ghost start_c = *self;
        let ghost mut trace_c: Seq<FramePass> = seq![*self];
        proof {
            lemma_keeps_refl(self, index);
            assert(frame.new_actors@.take(0) =~= Seq::<NewActor>::empty());
        }
        let mut k: usize = 0;
        while k < frame.new_actors.len()
            invariant
                event_keeps(self, old(self), index),
                event_keeps(self, &start_c, index),
                k <= frame.new_actors@.len(),
                creations_trace(trace_c, index, frame.new_actors@.take(k as int), names@, objects@),
                trace_c[0] == start_c,
                trace_c.last() == *self,
            decreases frame.new_actors@.len() - k,
        {
            let ghost before = *self;
            self.create_event(index, &frame.new_actors[k], names, objects);
            proof {
                lemma_keeps_trans(old(self), &before, self, index);
                lemma_keeps_trans(&start_c, &before, self, index);
                let prev = trace_c;
                trace_c = prev.push(*self);
                let ev = frame.new_actors@.take(k + 1);
                assert forall|i: int| 0 <= i < ev.len() implies #[trigger] create_step(trace_c[i + 1], trace_c[i], index, ev[i], names@, objects@) by {
                    if i < k {
                        assert(ev[i] == frame.new_actors@.take(k as int)[i]);
                        assert(trace_c[i] == prev[i]);
                        assert(trace_c[i + 1] == prev[i + 1]);
                    } else {
                        assert(ev[i] == frame.new_actors@[k as int]);
                        assert(trace_c[i] == before);
                    }
                }
            }
            k = k + 1;
        }
        proof {
            assert(frame.new_actors@.take(k as int) =~= frame.new_actors@);
        }
        let ghost created = *self;
        assert(creations_applied(created, *old(self), index, frame.new_actors@, names@, objects@));
        let ghost start_u = *self;
        let ghost mut trace_u: Seq<FramePass> = seq![*self];
        proof {
            lemma_keeps_refl(self, index);
            assert(frame.updated_actors@.take(0) =~= Seq::<UpdatedActor>::empty());
        }
        let mut k: usize = 0;
        while k < frame.updated_actors.len()
            invariant
                event_keeps(self, old(self), index),
                event_keeps(self, &start_u, index),
                k <= frame.updated_actors@.len(),
                creations_applied(created, *old(self), index, frame.new_actors@, names@, objects@),
                updates_trace(trace_u, index, frame.updated_actors@.take(k as int), objects@),
                trace_u[0] == start_u,
                trace_u.last() == *self,
            decreases frame.updated_actors@.len() - k,
        {
            let ghost before = *self;
            self.update_event(index, &frame.updated_actors[k], objects);
            proof {
                lemma_keeps_trans(old(self), &before, self, index);
                lemma_keeps_trans(&start_u, &before, self, index);
                let prev = trace_u;
                trace_u = prev.push(*self);
                let ev = frame.updated_actors@.take(k + 1);
                assert forall|i: int| 0 <= i < ev.len() implies #[trigger] update_step(trace_u[i + 1], trace_u[i], index, ev[i], objects@) by {
                    if i < k {
                        assert(ev[i] == frame.updated_actors@.take(k as int)[i]);
                        assert(trace_u[i] == prev[i]);
                        assert(trace_u[i + 1] == prev[i + 1]);
                    } else {
                        assert(ev[i] == frame.updated_actors@[k as int]);
                        assert(trace_u[i] == before);
                    }
                }
            }
            k = k + 1;
        }
        proof {
            assert(frame.updated_actors@.take(k as int) =~= frame.updated_actors@);
        }
        let ghost updated = *self;
        assert(updates_applied(updated, created, index, frame.updated_actors@, objects@));
        let ghost start_d = *self;
        let ghost mut trace_d: Seq<FramePass> = seq![*self];
        proof {
            lemma_keeps_refl(self, index);
            assert(frame.deleted_actors@.take(0) =~= Seq::<i32>::empty());
        }
        let mut k: usize = 0;
        while k < frame.deleted_actors.len()
            invariant
                event_keeps(self, old(self), index),
                event_keeps(self, &start_d, index),
                k <= frame.deleted_actors@.len(),
                creations_applied(created, *old(self), index, frame.new_actors@, names@, objects@),
                updates_applied(updated, created, index, frame.updated_actors@, objects@),
                deletions_trace(trace_d, index, frame.deleted_actors@.take(k as int)),
                trace_d[0] == start_d,
                trace_d.last() == *self,
            decreases frame.deleted_actors@.len() - k,
        {
            let ghost before = *self;
            self.delete_event(index, frame.deleted_actors[k]);
            proof {
                lemma_keeps_trans(old(self), &before, self, index);
                lemma_keeps_trans(&start_d, &before, self, index);
                let prev = trace_d;
                trace_d = prev.push(*self);
                let ev = frame.deleted_actors@.take(k + 1);
                assert forall|i: int| 0 <= i < ev.len() implies #[trigger] delete_step(trace_d[i + 1], trace_d[i], index, ev[i]) by {
                    if i < k {
                        assert(ev[i] == frame.deleted_actors@.take(k as int)[i]);
                        assert(trace_d[i] == prev[i]);
                        assert(trace_d[i + 1] == prev[i + 1]);
                    } else {
                        assert(ev[i] == frame.deleted_actors@[k as int]);
                        assert(trace_d[i] == before);
                    }
                }
            }
            k = k + 1;
        }
        proof {
            assert(frame.deleted_actors@.take(k as int) =~= frame.deleted_actors@);
        }
        assert(deletions_applied(*self, updated, index, frame.deleted_actors@));
    }
}

/// Runs the whole frame pass over `stream`, frame by frame, and retires the
/// actors still active at its end.
pub fn run_frames(stream: &Stream) -> (r: FramePass)
    ensures
        r.wf(),
        forall|x: i32| !#[trigger] r.registry.is_active(x),
        log_in_order(r.registry.log@, stream.frames@.len()),
        stream_run(r, *stream),
{
    let mut pass = FramePass::new();
    let mut i: usize = 0;
    let ghost mut trace: Seq<FramePass> = seq![pass];
    assert(stream.frames@.take(0) =~= Seq::<Frame>::empty());
    while i < stream.frames.len()
        invariant
            pass.wf(),
            i <= stream.frames@.len(),
            log_in_order(pass.registry.log@, i as nat),
            frames_trace(trace, stream.frames@.take(i as int), stream.names@, stream.objects@),
            trace.last() == pass,
        decreases stream.frames@.len() - i,
    {
        let ghost before = pass;
        pass.apply_frame(i, &stream.frames[i], &stream.names, &stream.objects);
        proof {
            let prev = trace;
            trace = prev.push(pass);
            let fs = stream.frames@.take(i + 1);
            assert(trace[0] == prev[0]);
            assert forall|j: int| 0 <= j < fs.len() implies #[trigger] frame_applied(
                trace[j + 1],
                trace[j],
                j as usize,
                fs[j],
                stream.names@,
                stream.objects@,
            ) by {
                if j < i {
                    assert(fs[j] == stream.frames@.take(i as int)[j]);
                    assert(trace[j] == prev[j]);
                    assert(trace[j + 1] == prev[j + 1]);
                } else {
                    assert(fs[j] == stream.frames@[i as int]);
                    assert(trace[j] == before);
                }
            }
            let old_log = before.registry.log@;
            let log = pass.registry.log@;
            assert forall|e: int| 0 <= e < old_log.len() implies #[trigger] log[e] == old_log[e] by {
                assert(log.subrange(0, old_log.len() as int)[e] == log[e]);
            }
            assert forall|e: int, f: int| 0 <= e <= f < log.len() implies (#[trigger] log[e]).frame
                <= (#[trigger] log[f]).frame by {
                if f < old_log.len() {
                    assert(log[e] == old_log[e]);
                    assert(log[f] == old_log[f]);
                } else if e < old_log.len() {
                    assert(log[e] == old_log[e]);
                }
            }
            assert forall|e: int| 0 <= e < log.len() implies (#[trigger] log[e]).frame < i + 1 by {
                if e < old_log.len() {
                    assert(log[e] == old_log[e]);
                }
            }
        }
        i = i + 1;
    }
    let ghost pre = pass;
    assert(stream.frames@.take(i as int) =~= stream.frames@);
    assert(frames_applied(pre, stream.frames@, stream.names@, stream.objects@));
    pass.registry.drain_remaining();
    pass
}

} // verus!
