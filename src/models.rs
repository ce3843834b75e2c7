use vstd::prelude::*;

use crate::header::{
    array_field, get_array, get_int, get_int64, get_platform, get_string, int_field,
    platform_field, qword_field, text_field, HeaderError, PropValue,
};

verus! {

/// One of the two teams.
pub struct Team {
    pub name: Option<String>,
    pub color: Option<i32>,
    pub score: Option<i32>,
    pub winner: Option<bool>,
    pub forfeit: Option<bool>,
}

/// A player: header stats, merged with what the actor stream attributed to them.
pub struct Player {
    pub name: String,
    pub tag: String,
    pub platform: String,
    pub score: i32,
    pub goals: i32,
    pub assists: i32,
    pub saves: i32,
    pub shots: i32,
    pub mvp: bool,
    pub full_time: bool,
    pub joined_late: bool,
    pub left_early: bool,
    pub camera: Option<boxcars::CamSettings>,
    pub loadout: Option<boxcars::TeamLoadout>,
    /// Transforms of the player's car, by frame.
    pub positions: Vec<(usize, boxcars::RigidBody)>,
}

/// The ball's transforms, by frame.
pub struct Ball {
    pub positions: Vec<(usize, boxcars::RigidBody)>,
}

/// Match metadata, read from the header alone.
pub struct Game {
    pub game_type: String,
    pub match_type: String,
    pub team_size: i32,
    pub date: String,
    pub id: String,
    pub map_name: String,
    pub had_bots: bool,
    pub no_contest: bool,
}

/// The reconstructed replay.
pub struct ReplayOutput {
    pub team0: Team,
    pub team1: Team,
    /// One player per entry of the header's player stats, in that order.
    pub players: Vec<Player>,
    pub ball: Ball,
    pub game: Game,
}

/// The decimal digits of `n`.
pub open spec fn decimal(n: nat) -> Seq<char>
    decreases n,
{
    if n < 10 {
        seq!["0123456789"@[n as int]]
    } else {
        decimal(n / 10).push("0123456789"@[(n % 10) as int])
    }
}

/// Relies on u64's `to_string`: the decimal digits, without sign or padding.
#[verifier::external_body]
fn decimal_text(n: u64) -> (r: String)
    ensures
        r@ == decimal(n as nat),
{
    n.to_string()
}

/// The error of a header read, if it failed.
pub open spec fn err_of<T>(r: Result<T, HeaderError>) -> Option<HeaderError> {
    match r {
        Ok(_) => None,
        Err(e) => Some(e),
    }
}

/// The first of two possible failures.
pub open spec fn first_err(a: Option<HeaderError>, b: Option<HeaderError>) -> Option<HeaderError> {
    if a is Some {
        a
    } else {
        b
    }
}

/// The first failing read of a player's stats, in the order they are read.
pub open spec fn stats_error(stats: Seq<(String, PropValue)>) -> Option<HeaderError> {
    first_err(
        err_of(text_field(stats, "Name"@)),
        first_err(
            err_of(platform_field(stats)),
            first_err(
                err_of(qword_field(stats, "OnlineID"@)),
                first_err(
                    err_of(int_field(stats, "Score"@)),
                    first_err(
                        err_of(int_field(stats, "Goals"@)),
                        first_err(
                            err_of(int_field(stats, "Assists"@)),
                            first_err(
                                err_of(int_field(stats, "Saves"@)),
                                err_of(int_field(stats, "Shots"@)),
                            ),
                        ),
                    ),
                ),
            ),
        ),
    )
}

/// A player's tag: the platform, a slash, and the online id on Steam or the
/// name elsewhere.
pub open spec fn tag_of(platform: Seq<char>, online_id: u64, name: Seq<char>) -> Seq<char> {
    if platform == "Steam"@ {
        platform + "/"@ + decimal(online_id as nat)
    } else {
        platform + "/"@ + name
    }
}

/// `p` is the player that readable `stats` describe, with nothing attributed yet.
pub open spec fn player_of_stats(p: Player, stats: Seq<(String, PropValue)>) -> bool {
    &&& text_field(stats, "Name"@) == Ok::<Seq<char>, HeaderError>(p.name@)
    &&& platform_field(stats) == Ok::<Seq<char>, HeaderError>(p.platform@)
    &&& (qword_field(stats, "OnlineID"@) matches Ok(online_id) && p.tag@ == tag_of(
        p.platform@,
        online_id,
        p.name@,
    ))
    &&& int_field(stats, "Score"@) == Ok::<i32, HeaderError>(p.score)
    &&& int_field(stats, "Goals"@) == Ok::<i32, HeaderError>(p.goals)
    &&& int_field(stats, "Assists"@) == Ok::<i32, HeaderError>(p.assists)
    &&& int_field(stats, "Saves"@) == Ok::<i32, HeaderError>(p.saves)
    &&& int_field(stats, "Shots"@) == Ok::<i32, HeaderError>(p.shots)
    &&& !p.mvp && p.full_time && !p.joined_late && !p.left_early
    &&& p.camera is None
    &&& p.loadout is None
    &&& p.positions@.len() == 0
}

impl Team {
    /// A team of which only the score is known.
    pub fn with_score(score: i32) -> (r: Team)
        ensures
            r.score == Some(score),
            r.name is None,
            r.color is None,
            r.winner is None,
            r.forfeit is None,
    {
        Team { name: None, color: None, score: Some(score), winner: None, forfeit: None }
    }
}

impl Ball {
    pub fn new() -> (r: Ball)
        ensures
            r.positions@.len() == 0,
    {
        Ball { positions: Vec::new() }
    }
}

impl Player {
    /// Builds a player from one entry of the header's player stats.
    pub fn from_stats(stats: &Vec<(String, PropValue)>) -> (r: Result<Player, HeaderError>)
        ensures
            r is Ok <==> stats_error(stats@) is None,
            r matches Ok(p) ==> player_of_stats(p, stats@),
            r matches Err(e) ==> stats_error(stats@) == Some(e),
    {
        let name = match get_string(stats, "Name") {
            Ok(v) => v,
            Err(e) => return Err(e),
        };
        let platform = match get_platform(stats) {
            Ok(v) => v,
            Err(e) => return Err(e),
        };
        let online_id = match get_int64(stats, "OnlineID") {
            Ok(v) => v,
            Err(e) => return Err(e),
        };
        let score = match get_int(stats, "Score") {
            Ok(v) => v,
            Err(e) => return Err(e),
        };
        let goals = match get_int(stats, "Goals") {
            Ok(v) => v,
            Err(e) => return Err(e),
        };
        let assists = match get_int(stats, "Assists") {
            Ok(v) => v,
            Err(e) => return Err(e),
        };
        let saves = match get_int(stats, "Saves") {
            Ok(v) => v,
            Err(e) => return Err(e),
        };
        let shots = match get_int(stats, "Shots") {
            Ok(v) => v,
            Err(e) => return Err(e),
        };
        let steam = String::from_str("Steam");
        let tag = if platform == steam {
            platform.clone().concat("/").concat(decimal_text(online_id).as_str())
        } else {
            platform.clone().concat("/").concat(name.as_str())
        };
        Ok(
            Player {
                name,
                tag,
                platform,
                score,
                goals,
                assists,
                saves,
                shots,
                mvp: false,
                full_time: true,
                joined_late: false,
                left_early: false,
                camera: None,
                loadout: None,
                positions: Vec::new(),
            },
        )
    }
}


/// The first failing row of the player stats, if any.
pub open spec fn rows_error(rows: Seq<Vec<(String, PropValue)>>) -> Option<HeaderError>
    decreases rows.len(),
{
    if rows.len() == 0 {
        None
    } else {
        first_err(stats_error(rows[0]@), rows_error(rows.drop_first()))
    }
}

/// The first failing read of the header, in the order the fields are read.
pub open spec fn header_error(props: Seq<(String, PropValue)>) -> Option<HeaderError> {
    first_err(
        err_of(int_field(props, "Team0Score"@)),
        first_err(
            err_of(int_field(props, "Team1Score"@)),
            first_err(
                err_of(text_field(props, "MatchType"@)),
                first_err(
                    err_of(int_field(props, "TeamSize"@)),
                    first_err(
                        err_of(text_field(props, "Date"@)),
                        first_err(
                            err_of(text_field(props, "Id"@)),
                            first_err(
                                err_of(text_field(props, "MapName"@)),
                                match array_field(props, "PlayerStats"@) {
                                    Err(e) => Some(e),
                                    Ok(rows) => rows_error(rows@),
                                },
                            ),
                        ),
                    ),
                ),
            ),
        ),
    )
}

/// `out` is what a readable header gives, before the actor stream is read.
pub open spec fn output_of_header(out: ReplayOutput, props: Seq<(String, PropValue)>, game_type: Seq<char>) -> bool {
    &&& int_field(props, "Team0Score"@) == Ok::<i32, HeaderError>(out.team0.score->Some_0)
    &&& int_field(props, "Team1Score"@) == Ok::<i32, HeaderError>(out.team1.score->Some_0)
    &&& out.team0.score is Some && out.team1.score is Some
    &&& out.team0.name is None && out.team0.color is None && out.team0.winner is None && out.team0.forfeit is None
    &&& out.team1.name is None && out.team1.color is None && out.team1.winner is None && out.team1.forfeit is None
    &&& out.game.game_type@ == game_type
    &&& text_field(props, "MatchType"@) == Ok::<Seq<char>, HeaderError>(out.game.match_type@)
    &&& int_field(props, "TeamSize"@) == Ok::<i32, HeaderError>(out.game.team_size)
    &&& text_field(props, "Date"@) == Ok::<Seq<char>, HeaderError>(out.game.date@)
    &&& text_field(props, "Id"@) == Ok::<Seq<char>, HeaderError>(out.game.id@)
    &&& text_field(props, "MapName"@) == Ok::<Seq<char>, HeaderError>(out.game.map_name@)
    &&& !out.game.had_bots && !out.game.no_contest
    &&& out.ball.positions@.len() == 0
    &&& array_field(props, "PlayerStats"@) matches Ok(rows) && rows@.len() == out.players@.len()
        && forall|i: int| 0 <= i < rows@.len() ==> player_of_stats(#[trigger] out.players@[i], rows@[i]@)
}

impl ReplayOutput {
    /// Builds the output's skeleton from the header: team scores, game
    /// metadata, and one player per entry of the player stats.
    pub fn from(props: &Vec<(String, PropValue)>, game_type: String) -> (r: Result<ReplayOutput, HeaderError>)
        ensures
            r is Ok <==> header_error(props@) is None,
            r matches Ok(out) ==> output_of_header(out, props@, game_type@),
            r matches Err(e) ==> header_error(props@) == Some(e),
    {
        let team0_score = match get_int(props, "Team0Score") {
            Ok(v) => v,
            Err(e) => return Err(e),
        };
        let team1_score = match get_int(props, "Team1Score") {
            Ok(v) => v,
            Err(e) => return Err(e),
        };
        let match_type = match get_string(props, "MatchType") {
            Ok(v) => v,
            Err(e) => return Err(e),
        };
        let team_size = match get_int(props, "TeamSize") {
            Ok(v) => v,
            Err(e) => return Err(e),
        };
        let date = match get_string(props, "Date") {
            Ok(v) => v,
            Err(e) => return Err(e),
        };
        let id = match get_string(props, "Id") {
            Ok(v) => v,
            Err(e) => return Err(e),
        };
        let map_name = match get_string(props, "MapName") {
            Ok(v) => v,
            Err(e) => return Err(e),
        };
        let rows = match get_array(props, "PlayerStats") {
            Ok(v) => v,
            Err(e) => return Err(e),
        };
        let mut players: Vec<Player> = Vec::new();
        let mut i: usize = 0;
        assert(rows@.subrange(0, rows@.len() as int) =~= rows@);
        while i < rows.len()
            invariant
                i <= rows@.len(),
                players@.len() == i,
                array_field(props@, "PlayerStats"@) == Ok::<Vec<Vec<(String, PropValue)>>, HeaderError>(*rows),
                header_error(props@) == rows_error(rows@),
                int_field(props@, "Team0Score"@) == Ok::<i32, HeaderError>(team0_score),
                int_field(props@, "Team1Score"@) == Ok::<i32, HeaderError>(team1_score),
                text_field(props@, "MatchType"@) == Ok::<Seq<char>, HeaderError>(match_type@),
                int_field(props@, "TeamSize"@) == Ok::<i32, HeaderError>(team_size),
                text_field(props@, "Date"@) == Ok::<Seq<char>, HeaderError>(date@),
                text_field(props@, "Id"@) == Ok::<Seq<char>, HeaderError>(id@),
                text_field(props@, "MapName"@) == Ok::<Seq<char>, HeaderError>(map_name@),
                rows_error(rows@) == rows_error(rows@.subrange(i as int, rows@.len() as int)),
                forall|j: int| 0 <= j < i ==> player_of_stats(#[trigger] players@[j], rows@[j]@),
            decreases rows@.len() - i,
        {
            let ghost rest = rows@.subrange(i as int, rows@.len() as int);
            assert(rest.drop_first() =~= rows@.subrange(i + 1, rows@.len() as int));
            assert(rest[0] == rows@[i as int]);
            match Player::from_stats(&rows[i]) {
                Ok(p) => players.push(p),
                Err(e) => {
                    return Err(e);
                },
            }
            i = i + 1;
        }
        assert(rows@.subrange(i as int, rows@.len() as int).len() == 0);
        Ok(
            ReplayOutput {
                team0: Team::with_score(team0_score),
                team1: Team::with_score(team1_score),
                players,
                ball: Ball::new(),
                game: Game {
                    game_type,
                    match_type,
                    team_size,
                    date,
                    id,
                    map_name,
                    had_bots: false,
                    no_contest: false,
                },
            },
        )
    }
}


impl ReplayOutput {
    /// Appends a transform of the ball.
    pub fn add_ball_position(&mut self, frame: usize, body: boxcars::RigidBody)
        ensures
            final(self).ball.positions@ == old(self).ball.positions@.push((frame, body)),
            final(self).players == old(self).players,
            final(self).team0 == old(self).team0,
            final(self).team1 == old(self).team1,
            final(self).game == old(self).game,
    {
        self.ball.positions.push((frame, body));
    }

    /// Appends a transform of the car of the player at position `k`; where no
    /// player stands there, nothing changes.
    pub fn add_player_position(&mut self, k: usize, frame: usize, body: boxcars::RigidBody)
        ensures
            final(self).players@.len() == old(self).players@.len(),
            forall|j: int| 0 <= j < old(self).players@.len() && j != k ==> #[trigger] final(self).players@[j] == old(self).players@[j],
            k >= old(self).players@.len() ==> final(self).players == old(self).players,
            k < old(self).players@.len() ==> final(self).players@[k as int].positions@ == old(self).players@[k as int].positions@.push((frame, body)),
            k < old(self).players@.len() ==> final(self).players@[k as int] == (Player { positions: final(self).players@[k as int].positions, ..old(self).players@[k as int] }),
            final(self).ball == old(self).ball,
            final(self).team0 == old(self).team0,
            final(self).team1 == old(self).team1,
            final(self).game == old(self).game,
    {
        if k < self.players.len() {
            self.players[k].positions.push((frame, body));
        }
    }
}

} // verus!
