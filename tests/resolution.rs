use replay_timeline::events::{AttrValue, Frame, NewActor, Stream, UpdatedActor};
use replay_timeline::registry::{Registry, RegistryError};
use replay_timeline::resolver::{run_frames, Diagnostic, FramePass};

const COMPONENT: &str = "TAGame.Default__CarComponent_Boost_TA";
const CAR: &str = "Archetypes.Car.Car_Default";
const INFO: &str = "TAGame.Default__PRI_TA";

fn objects() -> Vec<String> {
    vec![
        COMPONENT.to_string(),
        CAR.to_string(),
        INFO.to_string(),
        "TAGame.CarComponent_TA:Vehicle".to_string(),
        "Engine.Pawn:PlayerReplicationInfo".to_string(),
        "Engine.PlayerReplicationInfo:PlayerName".to_string(),
        "TAGame.Team_TA:CustomTeamName".to_string(),
        "Archetypes.Teams.Team0".to_string(),
        "Archetypes.Teams.Team1".to_string(),
    ]
}

fn names() -> Vec<String> {
    vec!["Boost_1".to_string(), "Car_1".to_string(), "PRI_1".to_string(), "Team0_1".to_string(), "Team1_1".to_string()]
}

fn empty_frame() -> Frame {
    Frame { new_actors: vec![], updated_actors: vec![], deleted_actors: vec![] }
}

fn create(id: i32, name_index: i32, object_index: i32) -> NewActor {
    NewActor { id, name_index: Some(name_index), object_index }
}

fn link(child: i32, key: i32, parent: i32) -> UpdatedActor {
    UpdatedActor { id: child, object_index: key, value: AttrValue::ActorRef { actor: parent, active: true } }
}

fn naming(id: i32, name: &str) -> UpdatedActor {
    UpdatedActor { id, object_index: 5, value: AttrValue::Text(name.to_string()) }
}

fn player_of(pass: &FramePass, id: i32) -> Option<String> {
    let slot = pass.registry.find_active(id).expect("actor is active");
    pass.registry.actors[slot].player.clone()
}

/// Creates component 5, car 9 and player-info 12 in frame 0, then delivers the
/// three resolution events in the given order, one per frame from frame 2.
fn chain_in_order(order: [usize; 3]) -> FramePass {
    let objects = objects();
    let names = names();
    let mut pass = FramePass::new();
    let mut first = empty_frame();
    first.new_actors = vec![create(5, 0, 0), create(9, 1, 1), create(12, 2, 2)];
    pass.apply_frame(0, &first, &names, &objects);
    pass.apply_frame(1, &empty_frame(), &names, &objects);
    for (n, which) in order.iter().enumerate() {
        let event = match which {
            0 => link(5, 3, 9),
            1 => link(9, 4, 12),
            _ => naming(12, "Alice"),
        };
        let mut frame = empty_frame();
        frame.updated_actors = vec![event];
        pass.apply_frame(2 + n, &frame, &names, &objects);
    }
    pass
}

fn assert_chain_is_alice(pass: &FramePass) {
    for id in [5, 9, 12] {
        assert_eq!(player_of(pass, id), Some("Alice".to_string()));
    }
}

#[test]
fn chain_resolves_after_naming() {
    let pass = chain_in_order([0, 1, 2]);
    assert_chain_is_alice(&pass);
    assert!(pass.diagnostics.is_empty());
}

#[test]
fn chain_resolves_naming_first() {
    assert_chain_is_alice(&chain_in_order([2, 0, 1]));
}

#[test]
fn chain_resolves_naming_between_links() {
    assert_chain_is_alice(&chain_in_order([0, 2, 1]));
}

#[test]
fn chain_resolves_links_reversed() {
    assert_chain_is_alice(&chain_in_order([1, 0, 2]));
}

#[test]
fn chain_resolves_naming_first_links_reversed() {
    assert_chain_is_alice(&chain_in_order([2, 1, 0]));
}

#[test]
fn chain_resolves_upper_link_then_naming() {
    assert_chain_is_alice(&chain_in_order([1, 2, 0]));
}

#[test]
fn chain_unresolved_without_naming() {
    let objects = objects();
    let names = names();
    let mut pass = FramePass::new();
    let mut first = empty_frame();
    first.new_actors = vec![create(5, 0, 0), create(9, 1, 1), create(12, 2, 2)];
    first.updated_actors = vec![link(5, 3, 9), link(9, 4, 12)];
    pass.apply_frame(0, &first, &names, &objects);
    for id in [5, 9, 12] {
        assert_eq!(player_of(&pass, id), None);
    }
}

#[test]
fn inactive_link_is_ignored() {
    let objects = objects();
    let names = names();
    let mut pass = FramePass::new();
    let mut first = empty_frame();
    first.new_actors = vec![create(9, 1, 1), create(12, 2, 2)];
    first.updated_actors = vec![
        UpdatedActor { id: 9, object_index: 4, value: AttrValue::ActorRef { actor: 12, active: false } },
        naming(12, "Alice"),
    ];
    pass.apply_frame(0, &first, &names, &objects);
    assert_eq!(player_of(&pass, 9), None);
    let slot = pass.registry.find_active(9).unwrap();
    assert_eq!(pass.registry.actors[slot].parent, None);
}

#[test]
fn cascade_ends_on_a_cycle() {
    let objects = objects();
    let names = names();
    let mut pass = FramePass::new();
    let mut first = empty_frame();
    first.new_actors = vec![create(1, 0, 0), create(2, 1, 1), create(3, 2, 2)];
    first.updated_actors = vec![link(1, 3, 2), link(2, 4, 1), link(3, 4, 2), naming(1, "Bob")];
    pass.apply_frame(0, &first, &names, &objects);
    for id in [1, 2, 3] {
        assert_eq!(player_of(&pass, id), Some("Bob".to_string()));
    }
}

#[test]
fn first_name_stays() {
    let objects = objects();
    let names = names();
    let mut pass = FramePass::new();
    let mut first = empty_frame();
    first.new_actors = vec![create(12, 2, 2)];
    first.updated_actors = vec![naming(12, "Alice"), naming(12, "Mallory")];
    pass.apply_frame(0, &first, &names, &objects);
    assert_eq!(player_of(&pass, 12), Some("Alice".to_string()));
}

#[test]
fn delete_of_unknown_id_is_reported() {
    let objects = objects();
    let names = names();
    let mut pass = FramePass::new();
    let mut frame = empty_frame();
    frame.deleted_actors = vec![44];
    pass.apply_frame(3, &frame, &names, &objects);
    assert_eq!(pass.diagnostics, vec![Diagnostic::MalformedEvent { frame: 3, id: 44 }]);
}

#[test]
fn delete_twice_is_reported() {
    let objects = objects();
    let names = names();
    let mut pass = FramePass::new();
    let mut first = empty_frame();
    first.new_actors = vec![create(7, 1, 1)];
    pass.apply_frame(0, &first, &names, &objects);
    let mut second = empty_frame();
    second.deleted_actors = vec![7];
    pass.apply_frame(1, &second, &names, &objects);
    assert!(pass.diagnostics.is_empty());
    assert_eq!(pass.registry.actors[0].deleted_at, Some(1));
    let mut third = empty_frame();
    third.deleted_actors = vec![7];
    pass.apply_frame(2, &third, &names, &objects);
    assert_eq!(pass.diagnostics, vec![Diagnostic::MalformedEvent { frame: 2, id: 7 }]);
}

#[test]
fn id_reused_after_delete() {
    let objects = objects();
    let names = names();
    let mut pass = FramePass::new();
    let mut first = empty_frame();
    first.new_actors = vec![create(7, 1, 1)];
    first.deleted_actors = vec![7];
    pass.apply_frame(0, &first, &names, &objects);
    let mut second = empty_frame();
    second.new_actors = vec![create(7, 2, 2)];
    pass.apply_frame(1, &second, &names, &objects);
    assert!(pass.diagnostics.is_empty());
    assert_eq!(pass.registry.actors.len(), 2);
    let slot = pass.registry.find_active(7).unwrap();
    assert_eq!(slot, 1);
    assert_eq!(pass.registry.actors[slot].archetype, INFO);
}

#[test]
fn update_of_unknown_id_is_reported() {
    let objects = objects();
    let names = names();
    let mut pass = FramePass::new();
    let mut frame = empty_frame();
    frame.updated_actors = vec![naming(3, "Nobody")];
    pass.apply_frame(0, &frame, &names, &objects);
    assert_eq!(pass.diagnostics, vec![Diagnostic::MalformedEvent { frame: 0, id: 3 }]);
    assert!(pass.registry.log.is_empty());
}

#[test]
fn link_to_unknown_parent_is_reported() {
    let objects = objects();
    let names = names();
    let mut pass = FramePass::new();
    let mut frame = empty_frame();
    frame.new_actors = vec![create(9, 1, 1)];
    frame.updated_actors = vec![link(9, 4, 30)];
    pass.apply_frame(6, &frame, &names, &objects);
    assert_eq!(pass.diagnostics, vec![Diagnostic::MalformedEvent { frame: 6, id: 30 }]);
    assert_eq!(pass.registry.log.len(), 1);
}

#[test]
fn duplicate_create_is_reported() {
    let objects = objects();
    let names = names();
    let mut pass = FramePass::new();
    let mut frame = empty_frame();
    frame.new_actors = vec![create(9, 1, 1), create(9, 2, 2)];
    pass.apply_frame(0, &frame, &names, &objects);
    assert_eq!(pass.diagnostics, vec![Diagnostic::MalformedEvent { frame: 0, id: 9 }]);
    assert_eq!(pass.registry.actors.len(), 1);
}

#[test]
fn bad_table_index_is_reported() {
    let objects = objects();
    let names = names();
    let mut pass = FramePass::new();
    let mut frame = empty_frame();
    frame.new_actors = vec![NewActor { id: 1, name_index: None, object_index: 0 }, create(2, 99, 0), create(3, 0, -1)];
    pass.apply_frame(0, &frame, &names, &objects);
    assert_eq!(pass.diagnostics.len(), 3);
    assert!(pass.registry.actors.is_empty());
}

#[test]
fn team_names_follow_archetype() {
    let objects = objects();
    let names = names();
    let mut pass = FramePass::new();
    let mut frame = empty_frame();
    frame.new_actors = vec![create(1, 3, 7), create(2, 4, 8), create(3, 1, 1)];
    frame.updated_actors = vec![
        UpdatedActor { id: 1, object_index: 6, value: AttrValue::Text("Blue Crew".to_string()) },
        UpdatedActor { id: 2, object_index: 6, value: AttrValue::Text("Orange Crew".to_string()) },
        UpdatedActor { id: 3, object_index: 6, value: AttrValue::Text("Not a team".to_string()) },
    ];
    pass.apply_frame(0, &frame, &names, &objects);
    assert_eq!(pass.team0_name, Some("Blue Crew".to_string()));
    assert_eq!(pass.team1_name, Some("Orange Crew".to_string()));
}

#[test]
fn run_frames_drains_and_orders_log() {
    let mut f0 = empty_frame();
    f0.new_actors = vec![create(12, 2, 2)];
    let mut f1 = empty_frame();
    f1.updated_actors = vec![naming(12, "Alice")];
    let stream = Stream { names: names(), objects: objects(), frames: vec![f0, f1] };
    let pass = run_frames(&stream);
    assert!(pass.registry.active.is_empty());
    assert_eq!(pass.registry.log.len(), 1);
    assert_eq!(pass.registry.log[0].frame, 1);
    assert_eq!(pass.registry.actors[0].player, Some("Alice".to_string()));
    assert_eq!(pass.registry.actors[0].deleted_at, None);
}

#[test]
fn registry_errors() {
    let mut reg = Registry::new();
    assert_eq!(reg.create(1, "a".to_string(), CAR.to_string(), 0), Ok(()));
    assert_eq!(reg.create(1, "b".to_string(), CAR.to_string(), 0), Err(RegistryError::DuplicateActiveId));
    assert_eq!(reg.apply_update(2, "k".to_string(), AttrValue::Opaque, 0), Err(RegistryError::UnknownActiveActor));
    assert_eq!(reg.apply_update(1, "k".to_string(), AttrValue::Opaque, 0), Ok(0));
    assert_eq!(reg.delete(2, 1), Err(RegistryError::UnknownActiveActor));
    assert_eq!(reg.delete(1, 1), Ok(0));
    assert_eq!(reg.find_active(1), None);
}

#[test]
fn set_parent_takes_owner_player() {
    let mut reg = Registry::new();
    reg.create(1, "car".to_string(), CAR.to_string(), 0).unwrap();
    reg.create(2, "pri".to_string(), INFO.to_string(), 0).unwrap();
    reg.set_player(1, &"Alice".to_string());
    reg.set_parent(0, 1);
    assert_eq!(reg.actors[0].parent, Some(1));
    assert_eq!(reg.actors[0].player, Some("Alice".to_string()));
    assert!(reg.actors[1].pending_children.is_empty());
}

#[test]
fn second_ball_is_reported() {
    let objects = vec!["Archetypes.Ball.Ball_Default".to_string()];
    let names = names();
    let mut pass = FramePass::new();
    let mut first = empty_frame();
    first.new_actors = vec![create(1, 0, 0)];
    pass.apply_frame(0, &first, &names, &objects);
    assert!(pass.diagnostics.is_empty());
    let mut second = empty_frame();
    second.new_actors = vec![create(2, 0, 0)];
    second.deleted_actors = vec![1];
    pass.apply_frame(1, &second, &names, &objects);
    assert_eq!(pass.diagnostics, vec![Diagnostic::MultipleBalls { frame: 1, id: 2 }]);
    let mut third = empty_frame();
    third.deleted_actors = vec![2];
    pass.apply_frame(2, &third, &names, &objects);
    let mut fourth = empty_frame();
    fourth.new_actors = vec![create(3, 0, 0)];
    pass.apply_frame(3, &fourth, &names, &objects);
    assert_eq!(pass.diagnostics.len(), 1);
}

#[test]
fn actor_lookups() {
    let mut reg = Registry::new();
    reg.create(4, "car".to_string(), CAR.to_string(), 0).unwrap();
    assert_eq!(reg.get_actor(4).map(|a| a.name.clone()), Some("car".to_string()));
    assert!(reg.get_actor(5).is_none());
    assert_eq!(reg.get_actor_type(4), Some(CAR.to_string()));
    assert_eq!(reg.get_actor_type(5), None);
    assert_eq!(reg.get_actor_player(4), None);
    reg.set_player(0, &"Dana".to_string());
    assert_eq!(reg.get_actor_player(4), Some("Dana".to_string()));
    assert_eq!(reg.get_actor_player(5), None);
}

#[test]
fn table_lookup() {
    let table = objects();
    assert_eq!(replay_timeline::resolver::lookup_object(&table, 1), Some(&CAR.to_string()));
    assert_eq!(replay_timeline::resolver::lookup_object(&table, -1), None);
    assert_eq!(replay_timeline::resolver::lookup_object(&table, 9), None);
}

#[test]
fn resolved_child_still_registered_with_unresolved_owner() {
    let mut reg = Registry::new();
    reg.create(1, "car".to_string(), CAR.to_string(), 0).unwrap();
    reg.create(2, "pri".to_string(), INFO.to_string(), 0).unwrap();
    reg.set_player(0, &"Alice".to_string());
    reg.set_parent(0, 1);
    assert_eq!(reg.actors[1].pending_children, vec![0]);
    reg.set_parent(0, 1);
    assert_eq!(reg.actors[1].pending_children, vec![0]);
    reg.set_player(1, &"Bob".to_string());
    assert_eq!(reg.actors[0].player, Some("Alice".to_string()));
    assert_eq!(reg.actors[1].player, Some("Bob".to_string()));
    assert!(reg.actors[1].pending_children.is_empty());
}
