use vstd::prelude::*;

use crate::events::AttrValue;

verus! {

/// A simulation object observed during the replay.
pub struct Actor {
    pub id: i32,
    pub name: String,
    pub archetype: String,
    pub created_at: usize,
    pub deleted_at: Option<usize>,
    /// Slot of the owning actor.
    pub parent: Option<usize>,
    /// Slots of the actors waiting on this one for a player identity.
    pub pending_children: Vec<usize>,
    pub player: Option<String>,
}

/// One attribute update, in stream order.
pub struct ActorUpdate {
    /// Slot of the actor that was updated.
    pub slot: usize,
    pub frame: usize,
    pub attribute_name: String,
    pub value: AttrValue,
}

#[derive(PartialEq, Eq, Structural, Clone, Copy, Debug)]
pub enum RegistryError {
    DuplicateActiveId,
    UnknownActiveActor,
}

/// Every actor ever created, by slot, with the slots of those still active
/// and the log of all attribute updates.
pub struct Registry {
    pub actors: Vec<Actor>,
    pub active: Vec<usize>,
    pub log: Vec<ActorUpdate>,
}

impl Registry {
    /// The active actor with the given id, as an index into `active`.
    pub open spec fn active_pos(&self, id: i32, k: int) -> bool {
        0 <= k < self.active@.len() && self.actors@[self.active@[k] as int].id == id
    }

    pub open spec fn is_active(&self, id: i32) -> bool {
        exists|k: int| self.active_pos(id, k)
    }

    /// The slot of the active actor with the given id.
    pub open spec fn slot_of(&self, id: i32) -> int
        recommends
            self.is_active(id),
    {
        let k = choose|k: int| self.active_pos(id, k);
        self.active@[k] as int
    }

    pub open spec fn wf(&self) -> bool {
        self.shape_ok() && self.resolution_flows_down()
    }

    /// Slots in range, active actors undeleted and distinct in slot and id.
    pub open spec fn shape_ok(&self) -> bool {
        let n = self.actors@.len();
        &&& forall|k: int|
            0 <= k < self.active@.len() ==> {
                &&& #[trigger] self.active@[k] < n
                &&& self.actors@[self.active@[k] as int].deleted_at is None
            }
        &&& forall|k: int, l: int|
            0 <= k < self.active@.len() && 0 <= l < self.active@.len() && k != l ==> {
                &&& #[trigger] self.active@[k] != #[trigger] self.active@[l]
                &&& self.actors@[self.active@[k] as int].id != self.actors@[self.active@[l] as int].id
            }
        &&& forall|i: int|
            0 <= i < n ==> {
                &&& (#[trigger] self.actors@[i]).parent matches Some(p) ==> p < n
                &&& forall|j: int|
                    0 <= j < self.actors@[i].pending_children@.len()
                        ==> #[trigger] self.actors@[i].pending_children@[j] < n
            }
        &&& forall|e: int| 0 <= e < self.log@.len() ==> #[trigger] self.log@[e].slot < n
    }

    /// An actor whose owner has a player has that player too, or has one of its
    /// own; an unresolved actor with an owner is waiting on that owner.
    pub open spec fn resolution_flows_down(&self) -> bool {
        forall|i: int|
            0 <= i < self.actors@.len() ==> match (#[trigger] self.actors@[i]).parent {
                Some(p) => {
                    &&& self.actors@[p as int].player is Some ==> self.actors@[i].player is Some
                    &&& self.actors@[i].player is None
                        ==> self.actors@[p as int].pending_children@.contains(i as usize)
                },
                None => true,
            }
    }

    pub fn new() -> (r: Registry)
        ensures
            r.wf(),
            r.actors@.len() == 0,
            r.active@.len() == 0,
            r.log@.len() == 0,
    {
        Registry { actors: Vec::new(), active: Vec::new(), log: Vec::new() }
    }

    /// Looks up the slot of the active actor with the given id.
    pub fn find_active(&self, id: i32) -> (r: Option<usize>)
        requires
            self.wf(),
        ensures
            r is Some <==> self.is_active(id),
            r matches Some(s) ==> s == self.slot_of(id) && s < self.actors@.len(),
    {
        match self.active_index(id) {
            Some(k) => Some(self.active[k]),
            None => None,
        }
    }
}


impl Registry {
    /// A fresh actor with empty history, no parent and no player.
    pub open spec fn fresh_actor(a: Actor, id: i32, name: Seq<char>, archetype: Seq<char>, frame: usize) -> bool {
        &&& a.id == id
        &&& a.name@ == name
        &&& a.archetype@ == archetype
        &&& a.created_at == frame
        &&& a.deleted_at is None
        &&& a.parent is None
        &&& a.pending_children@.len() == 0
        &&& a.player is None
    }

    /// Registers a new active actor; fails when the id is already active.
    pub fn create(&mut self, id: i32, name: String, archetype: String, frame: usize) -> (r: Result<(), RegistryError>)
        requires
            old(self).wf(),
        ensures
            final(self).wf(),
            r is Err <==> old(self).is_active(id),
            r matches Err(e) ==> e is DuplicateActiveId && *final(self) == *old(self),
            r is Ok ==> {
                &&& final(self).actors@.len() == old(self).actors@.len() + 1
                &&& final(self).actors@.drop_last() == old(self).actors@
                &&& Self::fresh_actor(final(self).actors@.last(), id, name@, archetype@, frame)
                &&& final(self).active@ == old(self).active@.push(old(self).actors@.len() as usize)
                &&& final(self).log@ == old(self).log@
                &&& final(self).is_active(id)
                &&& final(self).slot_of(id) == old(self).actors@.len()
            },
    {
        if self.find_active(id).is_some() {
            return Err(RegistryError::DuplicateActiveId);
        }
        let slot = self.actors.len();
        let actor = Actor {
            id,
            name,
            archetype,
            created_at: frame,
            deleted_at: None,
            parent: None,
            pending_children: Vec::new(),
            player: None,
        };
        self.actors.push(actor);
        self.active.push(slot);
        proof {
            let k = self.active@.len() - 1;
            assert(self.active_pos(id, k));
            let c = choose|c: int| self.active_pos(id, c);
            assert(c == k) by {
                if c != k {
                    assert(self.actors@[self.active@[c] as int] == old(self).actors@[old(self).active@[c] as int]);
                    assert(old(self).active_pos(id, c));
                }
            }
            assert(self.actors@.drop_last() =~= old(self).actors@);
            assert forall|k: int, l: int|
                0 <= k < self.active@.len() && 0 <= l < self.active@.len() && k != l implies {
                    &&& #[trigger] self.active@[k] != #[trigger] self.active@[l]
                    &&& self.actors@[self.active@[k] as int].id != self.actors@[self.active@[l] as int].id
                } by {
                if k < old(self).active@.len() && l < old(self).active@.len() {
                } else if k < old(self).active@.len() {
                    assert(!old(self).active_pos(id, k));
                } else {
                    assert(!old(self).active_pos(id, l));
                }
            }
            assert forall|i: int| 0 <= i < self.actors@.len() implies match (#[trigger] self.actors@[i]).parent {
                Some(p) => {
                    &&& self.actors@[p as int].player is Some ==> self.actors@[i].player is Some
                    &&& self.actors@[i].player is None
                        ==> self.actors@[p as int].pending_children@.contains(i as usize)
                },
                None => true,
            } by {
                if i < old(self).actors@.len() {
                    assert(old(self).actors@[i] == self.actors@[i]);
                }
            }
        }
        Ok(())
    }
}


/// The number of actors that have no player yet.
pub open spec fn count_unresolved(s: Seq<Actor>) -> nat
    decreases s.len(),
{
    if s.len() == 0 {
        0
    } else {
        count_unresolved(s.drop_last()) + if s.last().player is None {
            1nat
        } else {
            0nat
        }
    }
}

/// Two records of one actor that differ at most in player and waiting children.
pub open spec fn same_actor(a: Actor, b: Actor) -> bool {
    &&& a.id == b.id
    &&& a.name == b.name
    &&& a.archetype == b.archetype
    &&& a.created_at == b.created_at
    &&& a.deleted_at == b.deleted_at
    &&& a.parent == b.parent
}

/// The actor in `i` had no player in `old` and has one in `new`.
pub open spec fn newly_named(new: Registry, old: Registry, i: int) -> bool {
    old.actors@[i].player is None && new.actors@[i].player is Some
}

/// The waiting lists after a cascade: those of the actors it named are
/// emptied, all others are untouched.
pub open spec fn waiting_lists_settled(new: Registry, old: Registry) -> bool {
    forall|i: int|
        0 <= i < old.actors@.len() ==> if newly_named(new, old, i) {
            (#[trigger] new.actors@[i]).pending_children@.len() == 0
        } else {
            new.actors@[i].pending_children == old.actors@[i].pending_children
        }
}

/// Every actor that a cascade from `root` named is `root` or was waiting on
/// another actor that it named.
pub open spec fn named_through_waiting(new: Registry, old: Registry, root: usize) -> bool {
    forall|i: int|
        0 <= i < old.actors@.len() && #[trigger] newly_named(new, old, i) ==> i == root || exists|j: int|
            0 <= j < old.actors@.len() && newly_named(new, old, j)
                && #[trigger] old.actors@[j].pending_children@.contains(i as usize)
}

/// A queued actor `x` is `root` (marked -1), or waits, in `start`, on the
/// actor `v`, which is already named.
spec fn queued_through(r: Registry, start: Registry, root: usize, x: usize, v: int) -> bool {
    (v == -1 && x == root) || (0 <= v < start.actors@.len() && newly_named(r, start, v)
        && start.actors@[v].pending_children@.contains(x))
}

/// Each queued actor is recorded with the named actor it waited on.
#[verifier::opaque]
spec fn work_witnessed(r: Registry, start: Registry, root: usize, work: Seq<usize>, via: Seq<int>) -> bool {
    &&& via.len() == work.len()
    &&& forall|w: int| 0 <= w < work.len() ==> #[trigger] queued_through(r, start, root, work[w], via[w])
}

/// Each named actor but `root` waited, in `start`, on the named actor that
/// `via` gives for it.
#[verifier::opaque]
spec fn named_witnessed(r: Registry, start: Registry, root: usize, via: Map<int, int>) -> bool {
    forall|i: int|
        0 <= i < start.actors@.len() && #[trigger] newly_named(r, start, i) ==> i == root || (
        via.dom().contains(i) && 0 <= via[i] < start.actors@.len() && newly_named(r, start, via[i])
            && start.actors@[via[i]].pending_children@.contains(i as usize))
}

/// Naming the queued actor `j` keeps both witness records, once the actors
/// that waited on `j` are queued behind `j`.
proof fn lemma_witness_step(
    start: Registry,
    before: Registry,
    after: Registry,
    root: usize,
    j: int,
    pre_work: Seq<usize>,
    pre_via: Seq<int>,
    via: Map<int, int>,
)
    requires
        before.actors@.len() == start.actors@.len(),
        after.actors@.len() == start.actors@.len(),
        0 <= j < start.actors@.len(),
        start.actors@.len() <= usize::MAX,
        pre_work.len() > 0,
        pre_work.last() == j as usize,
        start.actors@[j].player is None,
        before.actors@[j].player is None,
        after.actors@[j].player is Some,
        forall|i: int| 0 <= i < start.actors@.len() && i != j ==> #[trigger] after.actors@[i] == before.actors@[i],
        work_witnessed(before, start, root, pre_work, pre_via),
        named_witnessed(before, start, root, via),
    ensures
        work_witnessed(
            after,
            start,
            root,
            pre_work.drop_last() + start.actors@[j].pending_children@,
            pre_via.drop_last() + Seq::new(start.actors@[j].pending_children@.len(), |q: int| j),
        ),
        named_witnessed(after, start, root, via.insert(j, pre_via.last())),
{
    reveal(work_witnessed);
    reveal(named_witnessed);
    assert forall|w: int| 0 <= w < pre_work.len() - 1 implies #[trigger] pre_work.drop_last()[w] == pre_work[w]
        && pre_via.drop_last()[w] == pre_via[w] by {}
    let kids = start.actors@[j].pending_children@;
    let mid = pre_work.drop_last();
    let work = mid + kids;
    let wv = pre_via.drop_last() + Seq::new(kids.len(), |q: int| j);
    assert(!newly_named(before, start, j));
    assert forall|w: int| 0 <= w < work.len() implies #[trigger] queued_through(after, start, root, work[w], wv[w]) by {
        if w >= mid.len() {
            assert(work[w] == kids[w - mid.len()]);
            assert(wv[w] == j);
        } else {
            assert(work[w] == pre_work[w]);
            assert(wv[w] == pre_via[w]);
            assert(queued_through(before, start, root, pre_work[w], pre_via[w]));
            if !(wv[w] == -1 && work[w] == root) {
                assert(newly_named(before, start, pre_via[w]));
                assert(after.actors@[pre_via[w]] == before.actors@[pre_via[w]]);
            }
        }
    }
    assert(wv.len() == work.len());
    let via2 = via.insert(j, pre_via.last());
    assert forall|i: int|
        0 <= i < start.actors@.len() && #[trigger] newly_named(after, start, i) implies i == root || (
        via2.dom().contains(i) && 0 <= via2[i] < start.actors@.len() && newly_named(after, start, via2[i])
            && start.actors@[via2[i]].pending_children@.contains(i as usize)) by {
        let last = pre_work.len() - 1;
        assert(pre_work[last] == j as usize);
        assert(queued_through(before, start, root, pre_work[last], pre_via[last]));
        if i == j {
            if i != root {
                assert(newly_named(before, start, pre_via[last]));
                assert(after.actors@[pre_via[last]] == before.actors@[pre_via[last]]);
            }
        } else {
            assert(after.actors@[i] == before.actors@[i]);
            if i != root {
                assert(newly_named(before, start, i));
                assert(newly_named(before, start, via[i]));
                assert(after.actors@[via[i]] == before.actors@[via[i]]);
            }
        }
    }
}

/// Dropping an already-named actor from the queue keeps the work record.
proof fn lemma_witness_skip(r: Registry, start: Registry, root: usize, pre_work: Seq<usize>, pre_via: Seq<int>)
    requires
        pre_work.len() > 0,
        work_witnessed(r, start, root, pre_work, pre_via),
    ensures
        work_witnessed(r, start, root, pre_work.drop_last(), pre_via.drop_last()),
{
    reveal(work_witnessed);
    assert forall|w: int| 0 <= w < pre_work.len() - 1 implies #[trigger] pre_work.drop_last()[w] == pre_work[w]
        && pre_via.drop_last()[w] == pre_via[w] by {}
    assert forall|w: int| 0 <= w < pre_work.len() - 1 implies #[trigger] queued_through(
        r,
        start,
        root,
        pre_work.drop_last()[w],
        pre_via.drop_last()[w],
    ) by {
        assert(queued_through(r, start, root, pre_work[w], pre_via[w]));
    }
    assert(pre_via.drop_last().len() == pre_work.drop_last().len());
}

/// The witness record gives the cascade's bound on whom it named.
proof fn lemma_witness_done(r: Registry, start: Registry, root: usize, via: Map<int, int>)
    requires
        named_witnessed(r, start, root, via),
    ensures
        named_through_waiting(r, start, root),
{
    reveal(named_witnessed);
    assert forall|i: int|
        0 <= i < start.actors@.len() && #[trigger] newly_named(r, start, i) implies i == root || exists|j: int|
            0 <= j < start.actors@.len() && newly_named(r, start, j)
                && #[trigger] start.actors@[j].pending_children@.contains(i as usize) by {
        if i != root {
            let j = via[i];
            assert(start.actors@[j].pending_children@.contains(i as usize));
        }
    }
}

/// Resolving one unresolved actor lowers the number of unresolved actors.
proof fn lemma_resolve_one(s: Seq<Actor>, j: int, a: Actor)
    requires
        0 <= j < s.len(),
        s[j].player is None,
        a.player is Some,
    ensures
        count_unresolved(s.update(j, a)) < count_unresolved(s),
    decreases s.len(),
{
    let t = s.update(j, a);
    if j == s.len() - 1 {
        assert(t.drop_last() =~= s.drop_last());
    } else {
        assert(t.drop_last() =~= s.drop_last().update(j, a));
        lemma_resolve_one(s.drop_last(), j, a);
    }
}

impl Registry {
    /// `resolution_flows_down`, except at the actors still listed in `w`.
    pub open spec fn flows_down_except(&self, w: Seq<usize>) -> bool {
        forall|i: int|
            0 <= i < self.actors@.len() ==> match (#[trigger] self.actors@[i]).parent {
                Some(p) => {
                    &&& self.actors@[p as int].player is Some && self.actors@[i].player is None
                        ==> w.contains(i as usize)
                    &&& self.actors@[i].player is None ==> (
                    self.actors@[p as int].pending_children@.contains(i as usize) || w.contains(
                        i as usize,
                    ))
                },
                None => true,
            }
    }

    /// Gives `name` to the actor in `slot`, unless it has a player already, and to
    /// every actor waiting on it, transitively. Each actor is resolved at most once,
    /// so the walk ends even where the ownership links form a cycle.
    fn cascade(&mut self, slot: usize, name: &String)
        requires
            old(self).shape_ok(),
            slot < old(self).actors@.len(),
            old(self).flows_down_except(seq![slot]),
        ensures
            final(self).wf(),
            waiting_lists_settled(*final(self), *old(self)),
            named_through_waiting(*final(self), *old(self), slot),
            final(self).active@ == old(self).active@,
            final(self).log@ == old(self).log@,
            final(self).actors@.len() == old(self).actors@.len(),
            final(self).actors@[slot as int].player is Some,
            old(self).actors@[slot as int].player is None ==> final(self).actors@[slot as int].player
                == Some(*name),
            forall|i: int|
                0 <= i < old(self).actors@.len() ==> {
                    &&& same_actor(#[trigger] final(self).actors@[i], old(self).actors@[i])
                    &&& old(self).actors@[i].player is Some ==> final(self).actors@[i].player
                        == old(self).actors@[i].player
                    &&& final(self).actors@[i].player != old(self).actors@[i].player
                        ==> final(self).actors@[i].player == Some(*name)
                },
    {
        let mut work: Vec<usize> = Vec::new();
        work.push(slot);
        let ghost start = *self;
        let n = self.actors.len();
        let ghost mut via_of_work: Seq<int> = seq![-1int];
        let ghost mut via: Map<int, int> = Map::empty();
        assert(work@[0] == slot);
        proof {
            reveal(work_witnessed);
            reveal(named_witnessed);
        }
        while work.len() > 0
            invariant
                self.shape_ok(),
                self.flows_down_except(work@),
                self.active@ == start.active@,
                self.log@ == start.log@,
                self.actors@.len() == start.actors@.len(),
                self.actors@.len() == n,
                forall|j: int| 0 <= j < work@.len() ==> #[trigger] work@[j] < self.actors@.len(),
                slot < self.actors@.len(),
                self.actors@[slot as int].player is Some || work@.contains(slot),
                start.actors@[slot as int].player is None && self.actors@[slot as int].player is Some
                    ==> self.actors@[slot as int].player == Some(*name),
                forall|i: int|
                    0 <= i < start.actors@.len() ==> {
                        &&& same_actor(#[trigger] self.actors@[i], start.actors@[i])
                        &&& start.actors@[i].player is Some ==> self.actors@[i].player
                            == start.actors@[i].player
                        &&& self.actors@[i].player != start.actors@[i].player
                            ==> self.actors@[i].player == Some(*name)
                    },
                waiting_lists_settled(*self, start),
                work_witnessed(*self, start, slot, work@, via_of_work),
                named_witnessed(*self, start, slot, via),
            decreases count_unresolved(self.actors@), work@.len(),
        {
            let ghost pre_work = work@;
            let j = work.pop().unwrap();
            let ghost pre_via = via_of_work;
            proof {
                assert(pre_work =~= work@.push(j));
                via_of_work = pre_via.drop_last();
            }
            if self.actors[j].player.is_none() {
                let ghost before = *self;
                let mut children: Vec<usize> = Vec::new();
                std::mem::swap(&mut self.actors[j].pending_children, &mut children);
                self.actors[j].player = Some(name.clone());
                proof {
                    lemma_resolve_one(before.actors@, j as int, self.actors@[j as int]);
                    assert(self.actors@ == before.actors@.update(j as int, self.actors@[j as int]));
                }
                let ghost mid_work = work@;
                work.append(&mut children);
                proof {
                    assert(!newly_named(before, start, j as int));
                    assert(before.actors@[j as int].pending_children@ == start.actors@[j as int].pending_children@);
                    assert(start.actors@.len() == n);
                    lemma_witness_step(start, before, *self, slot, j as int, pre_work, pre_via, via);
                    via_of_work = pre_via.drop_last() + Seq::new(
                        start.actors@[j as int].pending_children@.len(),
                        |q: int| j as int,
                    );
                    via = via.insert(j as int, pre_via.last());
                    assert(work@ == pre_work.drop_last() + start.actors@[j as int].pending_children@);
                    if slot != j && pre_work.contains(slot) {
                        let c = choose|c: int| 0 <= c < pre_work.len() && pre_work[c] == slot;
                        assert(pre_work[mid_work.len() as int] == j);
                        assert(work@[c] == slot);
                    }
                    let kids = before.actors@[j as int].pending_children@;
                    assert(work@ =~= mid_work + kids);
                    assert forall|i: int| 0 <= i < self.actors@.len() implies match (
                    #[trigger] self.actors@[i]).parent {
                        Some(p) => {
                            &&& self.actors@[p as int].player is Some && self.actors@[i].player is None
                                ==> work@.contains(i as usize)
                            &&& self.actors@[i].player is None ==> (
                            self.actors@[p as int].pending_children@.contains(i as usize)
                                || work@.contains(i as usize))
                        },
                        None => true,
                    } by {
                        assert(same_actor(before.actors@[i], start.actors@[i]));
                        if let Some(p) = self.actors@[i].parent {
                            if self.actors@[i].player is None {
                                assert(i != j);
                                assert(before.actors@[i].parent == Some(p));
                                if pre_work.contains(i as usize) {
                                    let c = choose|c: int| 0 <= c < pre_work.len() && pre_work[c] == i as usize;
                                    assert(pre_work[mid_work.len() as int] == j);
                                    assert((i as usize) != j);
                                    assert(c < mid_work.len());
                                    assert(work@[c] == i as usize);
                                } else if p == j {
                                    assert(kids.contains(i as usize));
                                    let c = choose|c: int| 0 <= c < kids.len() && kids[c] == i as usize;
                                    assert(work@[mid_work.len() + c] == i as usize);
                                } else {
                                    assert(self.actors@[p as int] == before.actors@[p as int]);
                                }
                            }
                        }
                    }
                    assert forall|i: int| 0 <= i < start.actors@.len() implies if newly_named(*self, start, i) {
                        (#[trigger] self.actors@[i]).pending_children@.len() == 0
                    } else {
                        self.actors@[i].pending_children == start.actors@[i].pending_children
                    } by {
                        if i != j as int {
                            assert(self.actors@[i] == before.actors@[i]);
                        }
                    }
                    assert forall|k: int| 0 <= k < work@.len() implies #[trigger] work@[k] < self.actors@.len() by {
                        if k >= mid_work.len() {
                            assert(work@[k] == kids[k - mid_work.len()]);
                        } else {
                            assert(work@[k] == pre_work[k]);
                        }
                    }
                }
            } else {
                proof {
                    if slot != j && pre_work.contains(slot) {
                        let c = choose|c: int| 0 <= c < pre_work.len() && pre_work[c] == slot;
                        assert(pre_work[work@.len() as int] == j);
                        assert(work@[c] == slot);
                    }
                    assert forall|i: int| 0 <= i < self.actors@.len() implies match (
                    #[trigger] self.actors@[i]).parent {
                        Some(p) => {
                            &&& self.actors@[p as int].player is Some && self.actors@[i].player is None
                                ==> work@.contains(i as usize)
                            &&& self.actors@[i].player is None ==> (
                            self.actors@[p as int].pending_children@.contains(i as usize)
                                || work@.contains(i as usize))
                        },
                        None => true,
                    } by {
                        if self.actors@[i].player is None && pre_work.contains(i as usize) {
                            let c = choose|c: int| 0 <= c < pre_work.len() && pre_work[c] == i as usize;
                            assert(i != j);
                            assert(pre_work[work@.len() as int] == j);
                            assert((i as usize) != j);
                            assert(c < work@.len());
                            assert(work@[c] == i as usize);
                        }
                    }
                    lemma_witness_skip(*self, start, slot, pre_work, pre_via);
                    assert(work@ == pre_work.drop_last());
                    assert forall|k: int| 0 <= k < work@.len() implies #[trigger] work@[k] < self.actors@.len() by {
                        assert(work@[k] == pre_work[k]);
                    }
                }
            }
        }
        proof {
            assert forall|i: int| 0 <= i < self.actors@.len() implies match (
            #[trigger] self.actors@[i]).parent {
                Some(p) => {
                    &&& self.actors@[p as int].player is Some ==> self.actors@[i].player is Some
                    &&& self.actors@[i].player is None
                        ==> self.actors@[p as int].pending_children@.contains(i as usize)
                },
                None => true,
            } by {
                assert(!work@.contains(i as usize));
            }
            lemma_witness_done(*self, start, slot, via);
        }
    }
}


/// `new` is `old` after linking the actor in `child` to its owner in `parent`:
/// the child takes the owner's player where it had none, every other change
/// of player is to the owner's player, and no player once given changes.
pub open spec fn parent_linked(new: Registry, old: Registry, child: usize, parent: usize) -> bool {
    &&& new.wf()
    &&& new.resolution_step(&old)
    &&& new.actors@[child as int].parent == Some(parent)
    &&& old.actors@[child as int].player is None ==> new.actors@[child as int].player
        == old.actors@[parent as int].player
    &&& forall|i: int|
        0 <= i < old.actors@.len() ==> {
            &&& #[trigger] new.actors@[i].id == old.actors@[i].id
            &&& new.actors@[i].name == old.actors@[i].name
            &&& new.actors@[i].archetype == old.actors@[i].archetype
            &&& new.actors@[i].created_at == old.actors@[i].created_at
            &&& new.actors@[i].deleted_at == old.actors@[i].deleted_at
            &&& i != child ==> new.actors@[i].parent == old.actors@[i].parent
            &&& old.actors@[i].player is Some ==> new.actors@[i].player == old.actors@[i].player
            &&& new.actors@[i].player != old.actors@[i].player ==> new.actors@[i].player
                == old.actors@[parent as int].player
        }
    &&& (old.actors@[parent as int].player is Some && old.actors@[child as int].player is None)
        ==> waiting_lists_settled(new, old) && named_through_waiting(new, old, child)
    &&& old.actors@[parent as int].player is None ==> {
        &&& new.actors@[parent as int].pending_children@ == if old.actors@[parent as int].pending_children@.contains(
            child,
        ) {
            old.actors@[parent as int].pending_children@
        } else {
            old.actors@[parent as int].pending_children@.push(child)
        }
        &&& forall|i: int|
            0 <= i < old.actors@.len() ==> {
                &&& #[trigger] new.actors@[i].player == old.actors@[i].player
                &&& i != parent ==> new.actors@[i].pending_children == old.actors@[i].pending_children
            }
    }
    &&& (old.actors@[parent as int].player is Some && old.actors@[child as int].player is Some) ==> forall|i: int|
        0 <= i < old.actors@.len() ==> {
            &&& #[trigger] new.actors@[i].player == old.actors@[i].player
            &&& new.actors@[i].pending_children == old.actors@[i].pending_children
        }
}

/// `new` is `old` after naming the actor in `slot`: it has a player, taking
/// `name` where it had none, every other change of player is to `name`, and
/// no player once given changes.
pub open spec fn player_named(new: Registry, old: Registry, slot: usize, name: String) -> bool {
    &&& new.wf()
    &&& new.resolution_step(&old)
    &&& new.actors@[slot as int].player is Some
    &&& old.actors@[slot as int].player is None ==> new.actors@[slot as int].player == Some(name)
    &&& old.actors@[slot as int].player is Some ==> new.actors@ == old.actors@
    &&& waiting_lists_settled(new, old)
    &&& named_through_waiting(new, old, slot)
    &&& forall|i: int|
        0 <= i < old.actors@.len() ==> {
            &&& same_actor(#[trigger] new.actors@[i], old.actors@[i])
            &&& old.actors@[i].player is Some ==> new.actors@[i].player == old.actors@[i].player
            &&& new.actors@[i].player != old.actors@[i].player ==> new.actors@[i].player == Some(name)
        }
}

/// Whether `v` holds `x`.
fn holds_slot(v: &Vec<usize>, x: usize) -> (r: bool)
    ensures
        r == v@.contains(x),
{
    let mut k: usize = 0;
    while k < v.len()
        invariant
            k <= v@.len(),
            forall|j: int| 0 <= j < k ==> v@[j] != x,
        decreases v@.len() - k,
    {
        if v[k] == x {
            assert(v@[k as int] == x);
            return true;
        }
        k = k + 1;
    }
    false
}

impl Registry {
    /// The unchanged parts of the registry around an ownership change.
    pub open spec fn resolution_step(&self, prev: &Registry) -> bool {
        &&& self.active@ == prev.active@
        &&& self.log@ == prev.log@
        &&& self.actors@.len() == prev.actors@.len()
    }

    /// Links the actor in `child` to its owner in `parent`. The child takes the
    /// owner's player at once where the owner has one and the child has none.
    /// Where the owner has no player yet, the child is registered, once, in
    /// the owner's waiting list. Both slots are meant to be of active actors:
    /// the stream's links reach this through `FramePass::update_event`, which
    /// drops and reports a link naming an inactive actor.
    pub fn set_parent(&mut self, child: usize, parent: usize)
        requires
            old(self).wf(),
            child < old(self).actors@.len(),
            parent < old(self).actors@.len(),
        ensures
            parent_linked(*final(self), *old(self), child, parent),
    {
        let ghost prev = *self;
        self.actors[child].parent = Some(parent);
        let ghost linked = *self;
        proof {
            assert forall|i: int| 0 <= i < self.actors@.len() implies {
                &&& (#[trigger] self.actors@[i]).parent matches Some(p) ==> p < self.actors@.len()
                &&& forall|j: int|
                    0 <= j < self.actors@[i].pending_children@.len()
                        ==> #[trigger] self.actors@[i].pending_children@[j] < self.actors@.len()
            } by {
                assert(i != child ==> self.actors@[i] == prev.actors@[i]);
            }
            assert forall|k: int| 0 <= k < self.active@.len() implies {
                &&& #[trigger] self.active@[k] < self.actors@.len()
                &&& self.actors@[self.active@[k] as int].deleted_at is None
            } by {
                assert(prev.actors@[prev.active@[k] as int].deleted_at is None);
            }
            assert forall|k: int, l: int|
                0 <= k < self.active@.len() && 0 <= l < self.active@.len() && k != l implies {
                    &&& #[trigger] self.active@[k] != #[trigger] self.active@[l]
                    &&& self.actors@[self.active@[k] as int].id != self.actors@[self.active@[l] as int].id
                } by {
                assert(prev.actors@[prev.active@[k] as int].id != prev.actors@[prev.active@[l] as int].id);
            }
        }
        let owned = self.actors[parent].player.is_some();
        if owned && self.actors[child].player.is_none() {
            match &self.actors[parent].player {
                Some(owner) => {
                    let owner = owner.clone();
                    proof {
                        assert(self.flows_down_except(seq![child])) by {
                            assert forall|i: int| 0 <= i < self.actors@.len() implies match (
                            #[trigger] self.actors@[i]).parent {
                                Some(p) => {
                                    &&& self.actors@[p as int].player is Some && self.actors@[i].player is None
                                        ==> seq![child].contains(i as usize)
                                    &&& self.actors@[i].player is None ==> (
                                    self.actors@[p as int].pending_children@.contains(i as usize)
                                        || seq![child].contains(i as usize))
                                },
                                None => true,
                            } by {
                                if i == child {
                                    assert(seq![child][0] == child);
                                } else {
                                    assert(self.actors@[i] == prev.actors@[i]);
                                }
                            }
                        }
                    }
                    self.cascade(child, &owner);
                    proof {
                        assert forall|i: int| 0 <= i < prev.actors@.len() implies #[trigger] newly_named(*self, prev, i)
                            == newly_named(*self, linked, i) && prev.actors@[i].pending_children
                            == linked.actors@[i].pending_children by {
                            assert(i != child ==> linked.actors@[i] == prev.actors@[i]);
                        }
                    }
                },
                None => {},
            }
        } else if !owned {
            if !holds_slot(&self.actors[parent].pending_children, child) {
                self.actors[parent].pending_children.push(child);
            }
            proof {
                assert forall|i: int| 0 <= i < self.actors@.len() implies match (
                #[trigger] self.actors@[i]).parent {
                    Some(p) => {
                        &&& self.actors@[p as int].player is Some ==> self.actors@[i].player is Some
                        &&& self.actors@[i].player is None
                            ==> self.actors@[p as int].pending_children@.contains(i as usize)
                    },
                    None => true,
                } by {
                    if i != child {
                        assert(linked.actors@[i] == prev.actors@[i]);
                        if let Some(p) = self.actors@[i].parent {
                            if p == parent && self.actors@[i].player is None {
                                let c = choose|c: int|
                                    0 <= c < linked.actors@[p as int].pending_children@.len()
                                        && linked.actors@[p as int].pending_children@[c] == i as usize;
                                assert(self.actors@[p as int].pending_children@[c] == i as usize);
                            }
                        }
                    } else if !linked.actors@[parent as int].pending_children@.contains(child) {
                        assert(self.actors@[parent as int].pending_children@.last() == child);
                    }
                }
                assert forall|i: int| 0 <= i < self.actors@.len() implies {
                    &&& (#[trigger] self.actors@[i]).parent matches Some(p) ==> p < self.actors@.len()
                    &&& forall|j: int|
                        0 <= j < self.actors@[i].pending_children@.len()
                            ==> #[trigger] self.actors@[i].pending_children@[j] < self.actors@.len()
                } by {
                    if i == parent {
                        assert forall|j: int|
                            0 <= j < self.actors@[i].pending_children@.len()
                                implies #[trigger] self.actors@[i].pending_children@[j] < self.actors@.len() by {
                            if j < linked.actors@[i].pending_children@.len() {
                                assert(self.actors@[i].pending_children@[j] == linked.actors@[i].pending_children@[j]);
                            }
                        }
                    }
                }
            }
        } else {
            proof {
                assert forall|i: int| 0 <= i < self.actors@.len() implies match (
                #[trigger] self.actors@[i]).parent {
                    Some(p) => {
                        &&& self.actors@[p as int].player is Some ==> self.actors@[i].player is Some
                        &&& self.actors@[i].player is None
                            ==> self.actors@[p as int].pending_children@.contains(i as usize)
                    },
                    None => true,
                } by {
                    if i != child {
                        assert(self.actors@[i] == prev.actors@[i]);
                    }
                }
            }
        }
    }

    /// Gives `name` to the actor in `slot` unless it has a player already, and
    /// passes it on to every actor waiting on it, transitively. The slot is
    /// meant to be of an active actor: the stream's namings reach this through
    /// `FramePass::update_event`, which drops and reports one naming an
    /// inactive actor.
    pub fn set_player(&mut self, slot: usize, name: &String)
        requires
            old(self).wf(),
            slot < old(self).actors@.len(),
        ensures
            player_named(*final(self), *old(self), slot, *name),
    {
        if self.actors[slot].player.is_none() {
            proof {
                assert(self.flows_down_except(seq![slot])) by {
                    assert forall|i: int| 0 <= i < self.actors@.len() implies match (
                    #[trigger] self.actors@[i]).parent {
                        Some(p) => {
                            &&& self.actors@[p as int].player is Some && self.actors@[i].player is None
                                ==> seq![slot].contains(i as usize)
                            &&& self.actors@[i].player is None ==> (
                            self.actors@[p as int].pending_children@.contains(i as usize)
                                || seq![slot].contains(i as usize))
                        },
                        None => true,
                    } by {
                    }
                }
            }
            self.cascade(slot, name);
        }
    }
}


impl Registry {
    /// Looks up the position in `active` of the active actor with the given id.
    fn active_index(&self, id: i32) -> (r: Option<usize>)
        requires
            self.wf(),
        ensures
            r is Some <==> self.is_active(id),
            r matches Some(k) ==> self.active_pos(id, k as int) && self.active@[k as int] == self.slot_of(id),
    {
        let mut k: usize = 0;
        while k < self.active.len()
            invariant
                self.wf(),
                k <= self.active@.len(),
                forall|j: int| 0 <= j < k ==> !self.active_pos(id, j),
            decreases self.active@.len() - k,
        {
            let s = self.active[k];
            if self.actors[s].id == id {
                proof {
                    assert(self.active_pos(id, k as int));
                    let c = choose|c: int| self.active_pos(id, c);
                    assert(c == k);
                }
                return Some(k);
            }
            k = k + 1;
        }
        None
    }

    /// Retires the active actor with the given id at `frame`; fails when no such
    /// actor is active. The actor keeps its slot, its links and its history.
    pub fn delete(&mut self, id: i32, frame: usize) -> (r: Result<usize, RegistryError>)
        requires
            old(self).wf(),
        ensures
            final(self).wf(),
            r is Err <==> !old(self).is_active(id),
            r matches Err(e) ==> e is UnknownActiveActor && *final(self) == *old(self),
            r matches Ok(s) ==> {
                &&& s == old(self).slot_of(id)
                &&& final(self).actors@.len() == old(self).actors@.len()
                &&& final(self).actors@[s as int].deleted_at == Some(frame)
                &&& same_actor(
                    final(self).actors@[s as int],
                    Actor { deleted_at: Some(frame), ..old(self).actors@[s as int] },
                )
                &&& final(self).actors@[s as int].player == old(self).actors@[s as int].player
                &&& forall|i: int|
                    0 <= i < old(self).actors@.len() && i != s ==> #[trigger] final(self).actors@[i]
                        == old(self).actors@[i]
                &&& final(self).log@ == old(self).log@
                &&& forall|x: i32| #[trigger]
                    final(self).is_active(x) <==> old(self).is_active(x) && x != id
                &&& forall|x: i32|
                    #[trigger] final(self).is_active(x) ==> final(self).slot_of(x) == old(self).slot_of(x)
            },
    {
        match self.active_index(id) {
            None => Err(RegistryError::UnknownActiveActor),
            Some(k) => {
                let ghost prev = *self;
                let s = self.active[k];
                self.actors[s].deleted_at = Some(frame);
                self.active.remove(k);
                proof {
                    let n = prev.active@.len();
                    assert forall|l: int| 0 <= l < self.active@.len() implies #[trigger] self.active@[l]
                        == prev.active@[if l < k { l } else { l + 1 }] by {
                    }
                    assert forall|x: i32| #[trigger]
                        self.is_active(x) <==> prev.is_active(x) && x != id by {
                        if self.is_active(x) {
                            let c = choose|c: int| self.active_pos(x, c);
                            let c2 = if c < k { c } else { c + 1 };
                            assert(self.active@[c] != s);
                            assert(prev.active_pos(x, c2));
                            assert(x != id);
                        }
                        if prev.is_active(x) && x != id {
                            let c = choose|c: int| prev.active_pos(x, c);
                            assert(c != k);
                            let c2 = if c < k { c } else { c - 1 };
                            assert(self.active@[c2] == prev.active@[c]);
                            assert(prev.active@[c] != s);
                            assert(self.active_pos(x, c2));
                        }
                    }
                    assert forall|x: i32| #[trigger] self.is_active(x) implies self.slot_of(x) == prev.slot_of(x) by {
                        let c = choose|c: int| self.active_pos(x, c);
                        let c2 = if c < k { c } else { c + 1 };
                        assert(prev.active_pos(x, c2));
                        let d = choose|d: int| prev.active_pos(x, d);
                        assert(d == c2);
                    }
                    assert forall|i: int| 0 <= i < self.actors@.len() implies match (#[trigger] self.actors@[i]).parent {
                        Some(p) => {
                            &&& self.actors@[p as int].player is Some ==> self.actors@[i].player is Some
                            &&& self.actors@[i].player is None
                                ==> self.actors@[p as int].pending_children@.contains(i as usize)
                        },
                        None => true,
                    } by {
                        assert(prev.actors@[i].parent == self.actors@[i].parent);
                    }
                    assert forall|l: int, m: int|
                        0 <= l < self.active@.len() && 0 <= m < self.active@.len() && l != m implies {
                            &&& #[trigger] self.active@[l] != #[trigger] self.active@[m]
                            &&& self.actors@[self.active@[l] as int].id != self.actors@[self.active@[m] as int].id
                        } by {
                        let l2 = if l < k { l } else { l + 1 };
                        let m2 = if m < k { m } else { m + 1 };
                        assert(self.active@[l] == prev.active@[l2]);
                        assert(self.active@[m] == prev.active@[m2]);
                        assert(prev.active@[l2] != s && prev.active@[m2] != s);
                    }
                    assert forall|l: int| 0 <= l < self.active@.len() implies {
                        &&& #[trigger] self.active@[l] < self.actors@.len()
                        &&& self.actors@[self.active@[l] as int].deleted_at is None
                    } by {
                        let l2 = if l < k { l } else { l + 1 };
                        assert(self.active@[l] == prev.active@[l2]);
                        assert(prev.active@[l2] != s);
                    }
                }
                Ok(s)
            },
        }
    }

    /// Appends an update of the active actor with the given id to the log, and
    /// returns that actor's slot; fails when no such actor is active.
    pub fn apply_update(&mut self, id: i32, attribute_name: String, value: AttrValue, frame: usize) -> (r: Result<
        usize,
        RegistryError,
    >)
        requires
            old(self).wf(),
        ensures
            final(self).wf(),
            r is Err <==> !old(self).is_active(id),
            r matches Err(e) ==> e is UnknownActiveActor && *final(self) == *old(self),
            r matches Ok(s) ==> {
                &&& s == old(self).slot_of(id)
                &&& s < old(self).actors@.len()
                &&& final(self).actors@ == old(self).actors@
                &&& final(self).active@ == old(self).active@
                &&& final(self).log@.drop_last() == old(self).log@
                &&& final(self).log@.len() == old(self).log@.len() + 1
                &&& final(self).log@.last() == (ActorUpdate { slot: s, frame, attribute_name, value })
            },
    {
        match self.find_active(id) {
            None => Err(RegistryError::UnknownActiveActor),
            Some(s) => {
                let ghost prev = *self;
                self.log.push(ActorUpdate { slot: s, frame, attribute_name, value });
                proof {
                    assert(self.log@.drop_last() =~= prev.log@);
                    assert forall|e: int| 0 <= e < self.log@.len() implies #[trigger] self.log@[e].slot < self.actors@.len() by {
                        if e < prev.log@.len() {
                            assert(self.log@[e] == prev.log@[e]);
                        }
                    }
                }
                Ok(s)
            },
        }
    }

    /// Ends the frame pass: no actor stays active. Every actor keeps its record.
    pub fn drain_remaining(&mut self)
        requires
            old(self).wf(),
        ensures
            final(self).wf(),
            final(self).actors@ == old(self).actors@,
            final(self).log@ == old(self).log@,
            final(self).active@.len() == 0,
            forall|x: i32| !#[trigger] final(self).is_active(x),
    {
        self.active = Vec::new();
    }
}


impl Registry {
    /// The active actor with the given id.
    pub fn get_actor(&self, id: i32) -> (r: Option<&Actor>)
        requires
            self.wf(),
        ensures
            r is Some <==> self.is_active(id),
            r matches Some(a) ==> *a == self.actors@[self.slot_of(id)],
    {
        match self.find_active(id) {
            Some(s) => Some(&self.actors[s]),
            None => None,
        }
    }

    /// The archetype of the active actor with the given id.
    pub fn get_actor_type(&self, id: i32) -> (r: Option<String>)
        requires
            self.wf(),
        ensures
            r is Some <==> self.is_active(id),
            r matches Some(t) ==> t@ == self.actors@[self.slot_of(id)].archetype@,
    {
        match self.get_actor(id) {
            Some(a) => Some(a.archetype.clone()),
            None => None,
        }
    }

    /// The player of the active actor with the given id, where it has one.
    pub fn get_actor_player(&self, id: i32) -> (r: Option<String>)
        requires
            self.wf(),
        ensures
            self.is_active(id) ==> r == self.actors@[self.slot_of(id)].player,
            !self.is_active(id) ==> r is None,
    {
        match self.get_actor(id) {
            Some(a) => match &a.player {
                Some(p) => Some(p.clone()),
                None => None,
            },
            None => None,
        }
    }
}

} // verus!
