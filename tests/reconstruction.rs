use boxcars::{CamSettings, Loadout, Quaternion, RigidBody, TeamLoadout, Vector3f};
use replay_timeline::events::{AttrValue, Frame, NewActor, Stream, UpdatedActor};
use replay_timeline::header::{
    get_array, get_byte, get_header_value, get_int, get_int64, get_platform, get_string, HeaderError, PropValue,
};
use replay_timeline::models::{Ball, Player, ReplayOutput, Team};
use replay_timeline::timeline::reconstruct;

fn body(x: f32) -> RigidBody {
    RigidBody {
        sleeping: false,
        location: Vector3f { x, y: 0.0, z: 17.0 },
        rotation: Quaternion { x: 0.0, y: 0.0, z: 0.0, w: 1.0 },
        linear_velocity: None,
        angular_velocity: None,
    }
}

fn camera() -> CamSettings {
    CamSettings {
        fov: 110.0,
        height: 100.0,
        angle: -3.0,
        distance: 270.0,
        stiffness: 0.5,
        swivel: 4.7,
        transition: Some(1.2),
        camera_accel_rate: None,
        camera_decel_rate: None,
        free_look_speed: None,
        unconstrain_rotation: None,
        free_look_smoothing: None,
    }
}

fn loadout(body: u32) -> TeamLoadout {
    let one = Loadout {
        version: 22,
        body,
        decal: 0,
        wheels: 0,
        rocket_trail: 0,
        antenna: 0,
        topper: 0,
        unknown1: 0,
        unknown2: None,
        engine_audio: None,
        trail: None,
        goal_explosion: None,
        banner: None,
        product_id: None,
    };
    TeamLoadout { blue: one, orange: one }
}

fn prop(key: &str, value: PropValue) -> (String, PropValue) {
    (key.to_string(), value)
}

fn stats(name: &str, platform: &str, online_id: u64, score: i32) -> Vec<(String, PropValue)> {
    vec![
        prop("Name", PropValue::Str(name.to_string())),
        prop(
            "Platform",
            PropValue::Byte { kind: "OnlinePlatform".to_string(), value: Some(format!("OnlinePlatform_{}", platform)) },
        ),
        prop("OnlineID", PropValue::QWord(online_id)),
        prop("Score", PropValue::Int(score)),
        prop("Goals", PropValue::Int(2)),
        prop("Assists", PropValue::Int(1)),
        prop("Saves", PropValue::Int(3)),
        prop("Shots", PropValue::Int(4)),
    ]
}

fn header(team0: i32, team1: i32, players: Vec<Vec<(String, PropValue)>>) -> Vec<(String, PropValue)> {
    vec![
        prop("Team0Score", PropValue::Int(team0)),
        prop("Team1Score", PropValue::Int(team1)),
        prop("MatchType", PropValue::Name("Online".to_string())),
        prop("TeamSize", PropValue::Int(1)),
        prop("Date", PropValue::Str("2023-05-01 20-11-03".to_string())),
        prop("Id", PropValue::Str("ABCD".to_string())),
        prop("MapName", PropValue::Name("stadium_p".to_string())),
        prop("PlayerStats", PropValue::Array(players)),
    ]
}

fn objects() -> Vec<String> {
    [
        "Archetypes.Ball.Ball_Default",
        "Archetypes.Car.Car_Default",
        "TAGame.Default__PRI_TA",
        "TAGame.Default__CameraSettingsActor_TA",
        "TAGame.RBActor_TA:ReplicatedRBState",
        "Engine.Pawn:PlayerReplicationInfo",
        "TAGame.CameraSettingsActor_TA:PRI",
        "TAGame.CameraSettingsActor_TA:ProfileSettings",
        "Engine.PlayerReplicationInfo:PlayerName",
        "TAGame.PRI_TA:ClientLoadouts",
        "Archetypes.Teams.Team0",
        "Archetypes.Teams.Team1",
        "TAGame.Team_TA:CustomTeamName",
    ]
    .iter()
    .map(|s| s.to_string())
    .collect()
}

fn update(id: i32, object_index: i32, value: AttrValue) -> UpdatedActor {
    UpdatedActor { id, object_index, value }
}

fn create(id: i32, object_index: i32) -> NewActor {
    NewActor { id, name_index: Some(0), object_index }
}

fn linked_stream() -> Stream {
    let f0 = Frame {
        new_actors: vec![create(1, 0), create(2, 1), create(3, 2), create(4, 3), create(5, 1)],
        updated_actors: vec![
            update(1, 4, AttrValue::RigidBody(body(1.0))),
            update(2, 4, AttrValue::RigidBody(body(2.0))),
            update(2, 5, AttrValue::ActorRef { actor: 3, active: true }),
            update(4, 6, AttrValue::ActorRef { actor: 3, active: true }),
            update(4, 7, AttrValue::CameraProfile(camera())),
        ],
        deleted_actors: vec![],
    };
    let f1 = Frame {
        new_actors: vec![],
        updated_actors: vec![
            update(3, 8, AttrValue::Text("Alice".to_string())),
            update(3, 9, AttrValue::Loadout(loadout(23))),
            update(3, 9, AttrValue::Loadout(loadout(4284))),
            update(2, 4, AttrValue::RigidBody(body(3.0))),
            update(5, 4, AttrValue::RigidBody(body(9.0))),
            update(1, 4, AttrValue::RigidBody(body(5.0))),
        ],
        deleted_actors: vec![1],
    };
    Stream { names: vec!["Actor_0".to_string()], objects: objects(), frames: vec![f0, f1] }
}

#[test]
fn linked_player_gets_timeline_camera_and_loadout() {
    let props = header(1, 2, vec![stats("Alice", "Steam", 76561198000000001, 350)]);
    let rec = reconstruct(&props, "TAGame.Replay_Soccar_TA".to_string(), &linked_stream()).unwrap();
    let alice = &rec.output.players[0];
    assert_eq!(alice.name, "Alice");
    assert_eq!(alice.positions, vec![(0, body(2.0)), (1, body(3.0))]);
    assert_eq!(alice.camera, Some(camera()));
    assert_eq!(alice.loadout, Some(loadout(23)));
    assert!(rec.unknown_players.is_empty());
    assert_eq!(rec.unattributed, vec![5]);
    assert!(rec.diagnostics.is_empty());
}

#[test]
fn ball_timeline_holds_only_ball_updates() {
    let props = header(1, 2, vec![stats("Alice", "Steam", 1, 0)]);
    let rec = reconstruct(&props, "Soccar".to_string(), &linked_stream()).unwrap();
    assert_eq!(rec.output.ball.positions, vec![(0, body(1.0)), (1, body(5.0))]);
}

#[test]
fn player_without_actors_keeps_stats() {
    let props = header(1, 2, vec![stats("Alice", "Steam", 1, 0), stats("Ghost", "Epic", 0, 120)]);
    let rec = reconstruct(&props, "Soccar".to_string(), &linked_stream()).unwrap();
    assert_eq!(rec.output.players.len(), 2);
    let ghost = &rec.output.players[1];
    assert_eq!(ghost.name, "Ghost");
    assert_eq!(ghost.score, 120);
    assert_eq!(ghost.goals, 2);
    assert!(ghost.positions.is_empty());
    assert_eq!(ghost.camera, None);
    assert_eq!(ghost.loadout, None);
    assert_eq!(rec.unknown_players, vec![1]);
}

#[test]
fn team_scores_come_from_header() {
    let props = header(3, 5, vec![]);
    let f0 = Frame {
        new_actors: vec![create(1, 10), create(2, 11)],
        updated_actors: vec![
            update(1, 12, AttrValue::Text("Blue".to_string())),
            update(2, 12, AttrValue::Text("Orange".to_string())),
        ],
        deleted_actors: vec![],
    };
    let stream = Stream { names: vec!["Team".to_string()], objects: objects(), frames: vec![f0] };
    let rec = reconstruct(&props, "Soccar".to_string(), &stream).unwrap();
    assert_eq!(rec.output.team0.score, Some(3));
    assert_eq!(rec.output.team1.score, Some(5));
    assert_eq!(rec.output.team0.name, Some("Blue".to_string()));
    assert_eq!(rec.output.team1.name, Some("Orange".to_string()));
}

#[test]
fn game_metadata_from_header() {
    let props = header(0, 0, vec![]);
    let stream = Stream { names: vec![], objects: vec![], frames: vec![] };
    let rec = reconstruct(&props, "TAGame.Replay_Soccar_TA".to_string(), &stream).unwrap();
    let game = &rec.output.game;
    assert_eq!(game.game_type, "TAGame.Replay_Soccar_TA");
    assert_eq!(game.match_type, "Online");
    assert_eq!(game.team_size, 1);
    assert_eq!(game.date, "2023-05-01 20-11-03");
    assert_eq!(game.id, "ABCD");
    assert_eq!(game.map_name, "stadium_p");
    assert!(!game.had_bots && !game.no_contest);
}

#[test]
fn missing_header_field_fails() {
    let mut props = header(0, 0, vec![]);
    props.remove(0);
    let stream = Stream { names: vec![], objects: vec![], frames: vec![] };
    assert_eq!(reconstruct(&props, "x".to_string(), &stream).err(), Some(HeaderError::MissingProperty));
}

#[test]
fn mistyped_player_stat_fails() {
    let mut row = stats("Alice", "Steam", 1, 0);
    row[3] = prop("Score", PropValue::Str("lots".to_string()));
    let props = header(0, 0, vec![row]);
    assert_eq!(ReplayOutput::from(&props, "x".to_string()).err(), Some(HeaderError::TypeMismatch));
}

#[test]
fn header_lookups() {
    let props = vec![
        prop("A", PropValue::Int(7)),
        prop("A", PropValue::Int(8)),
        prop("B", PropValue::QWord(1 << 40)),
        prop("C", PropValue::Name("nm".to_string())),
        prop("D", PropValue::Bool(true)),
        prop("E", PropValue::Byte { kind: "K".to_string(), value: None }),
    ];
    assert!(matches!(get_header_value(&props, "A"), Some(PropValue::Int(7))));
    assert!(get_header_value(&props, "Z").is_none());
    assert_eq!(get_int(&props, "A"), Ok(7));
    assert_eq!(get_int(&props, "B"), Err(HeaderError::TypeMismatch));
    assert_eq!(get_int(&props, "Z"), Err(HeaderError::MissingProperty));
    assert_eq!(get_int64(&props, "B"), Ok(1 << 40));
    assert_eq!(get_int64(&props, "A"), Err(HeaderError::TypeMismatch));
    assert_eq!(get_string(&props, "C"), Ok("nm".to_string()));
    assert_eq!(get_string(&props, "D"), Err(HeaderError::TypeMismatch));
    assert_eq!(get_byte(&props, "E"), Ok(None));
    assert_eq!(get_byte(&props, "A"), Ok(None));
    assert_eq!(get_byte(&props, "Z"), Err(HeaderError::MissingProperty));
    assert!(get_array(&props, "A").is_err());
    assert_eq!(get_array(&props, "Z").err(), Some(HeaderError::MissingProperty));
}

#[test]
fn platform_prefix_is_removed() {
    let row = stats("Alice", "PS4", 1, 0);
    assert_eq!(get_platform(&row), Ok("PS4".to_string()));
    let plain = vec![prop("Platform", PropValue::Byte { kind: "OnlinePlatform".to_string(), value: None })];
    assert_eq!(get_platform(&plain), Ok("Unknown".to_string()));
    let odd = vec![prop(
        "Platform",
        PropValue::Byte { kind: "K".to_string(), value: Some("XOnlinePlatform_OnlinePlatform_Y".to_string()) },
    )];
    assert_eq!(get_platform(&odd), Ok("XY".to_string()));
    assert_eq!(get_platform(&vec![]), Err(HeaderError::MissingProperty));
}

#[test]
fn steam_tag_uses_online_id() {
    let p = Player::from_stats(&stats("Alice", "Steam", 76561198000000001, 350)).unwrap();
    assert_eq!(p.tag, "Steam/76561198000000001");
    assert_eq!(p.platform, "Steam");
    assert_eq!(p.score, 350);
    assert_eq!((p.goals, p.assists, p.saves, p.shots), (2, 1, 3, 4));
    assert!(p.full_time && !p.mvp && !p.joined_late && !p.left_early);
}

#[test]
fn other_tag_uses_name() {
    let p = Player::from_stats(&stats("Bob", "Epic", 0, 10)).unwrap();
    assert_eq!(p.tag, "Epic/Bob");
    let zero = Player::from_stats(&stats("Carl", "Steam", 0, 10)).unwrap();
    assert_eq!(zero.tag, "Steam/0");
}

#[test]
fn team_with_score_only() {
    let t = Team::with_score(4);
    assert_eq!(t.score, Some(4));
    assert!(t.name.is_none() && t.color.is_none() && t.winner.is_none() && t.forfeit.is_none());
    assert!(Ball::new().positions.is_empty());
}

#[test]
fn rigid_body_under_other_key_is_ignored() {
    let props = header(1, 2, vec![stats("Alice", "Steam", 1, 0)]);
    let mut stream = linked_stream();
    stream.frames[0].updated_actors.push(update(1, 12, AttrValue::RigidBody(body(7.0))));
    let rec = reconstruct(&props, "Soccar".to_string(), &stream).unwrap();
    assert_eq!(rec.output.ball.positions, vec![(0, body(1.0)), (1, body(5.0))]);
}

#[test]
fn player_position_out_of_range_changes_nothing() {
    let props = header(1, 2, vec![stats("Alice", "Steam", 1, 0)]);
    let mut out = ReplayOutput::from(&props, "Soccar".to_string()).unwrap();
    out.add_player_position(3, 0, body(1.0));
    assert!(out.players[0].positions.is_empty());
    out.add_player_position(0, 4, body(1.0));
    assert_eq!(out.players[0].positions, vec![(4, body(1.0))]);
    out.add_ball_position(2, body(3.0));
    assert_eq!(out.ball.positions, vec![(2, body(3.0))]);
}
